//! The configuration of a group, as a key finds it.

use vstd::prelude::*;

use crate::json;
use crate::json::{Json, Tree};
use crate::proxy::servers::Server;

verus! {

/// The server that counts tokens for a group.
#[derive(Debug)]
pub struct CountTokensServer {
    pub server_id: u128,
    pub short_id: i32,
    pub server_name: String,
    pub base_url: String,
    pub api_key: Option<String>,
    pub system_prompt: Option<String>,
    pub remove_thinking: bool,
    pub model_mappings: Json,
    pub custom_headers: Option<Json>,
}

/// The configuration that a key stands for.
#[derive(Debug)]
pub struct GroupConfig {
    pub group_id: u128,
    pub group_name: String,
    pub api_key: String,
    pub is_active: bool,
    pub failover_status_codes: Vec<u16>,
    pub ttft_timeout_ms: Option<i32>,
    pub servers: Vec<Server>,
    pub count_tokens_server: Option<CountTokensServer>,
    pub group_key_id: Option<u128>,
    pub allowed_models: Vec<String>,
    pub key_allowed_models: Vec<String>,
    pub blocked_user_agents: Vec<String>,
}

/// The configuration of a sub-key that is disabled. It is kept like any other, so that later
/// requests are refused without a look into the database.
pub fn disabled_config(group_id: u128, api_key: &str, group_key_id: u128) -> (r: GroupConfig)
    ensures
        r.group_id == group_id,
        r.group_name@.len() == 0,
        r.api_key@ == api_key@,
        !r.is_active,
        r.failover_status_codes@.len() == 0,
        r.ttft_timeout_ms is None,
        r.servers@.len() == 0,
        r.count_tokens_server is None,
        r.group_key_id == Some(group_key_id),
        r.allowed_models@.len() == 0,
        r.key_allowed_models@.len() == 0,
        r.blocked_user_agents@.len() == 0,
{
    GroupConfig {
        group_id,
        group_name: String::new(),
        api_key: api_key.to_owned(),
        is_active: false,
        failover_status_codes: Vec::new(),
        ttft_timeout_ms: None,
        servers: Vec::new(),
        count_tokens_server: None,
        group_key_id: Some(group_key_id),
        allowed_models: Vec::new(),
        key_allowed_models: Vec::new(),
        blocked_user_agents: Vec::new(),
    }
}

/// The servers that are assigned to a sub-key. Where none is, all are: a key without
/// assignments uses every server of its group.
pub open spec fn servers_for(servers: Seq<Server>, assigned: Seq<u128>) -> Seq<Server>
    decreases servers.len(),
{
    if assigned.len() == 0 || servers.len() == 0 {
        servers
    } else if assigned.contains(servers[0].server_id) {
        seq![servers[0]] + servers_for(servers.skip(1), assigned)
    } else {
        servers_for(servers.skip(1), assigned)
    }
}

fn contains_id(ids: &Vec<u128>, id: u128) -> (r: bool)
    ensures
        r == ids@.contains(id),
{
    for i in 0..ids.len()
        invariant
            forall|j: int| 0 <= j < i ==> ids@[j] != id,
    {
        if ids[i] == id {
            assert(ids@[i as int] == id);
            return true;
        }
    }
    false
}

/// Keeps the servers that are assigned to a sub-key, in their order.
pub fn assigned_servers(servers: Vec<Server>, assigned: &Vec<u128>) -> (r: Vec<Server>)
    ensures
        r@ == servers_for(servers@, assigned@),
{
    if assigned.len() == 0 {
        return servers;
    }
    let mut kept: Vec<Server> = Vec::new();
    let mut rest = servers;
    assert(kept@ + servers_for(rest@, assigned@) =~= servers_for(servers@, assigned@));
    while rest.len() > 0
        invariant
            assigned@.len() > 0,
            kept@ + servers_for(rest@, assigned@) == servers_for(servers@, assigned@),
        decreases rest.len(),
    {
        let ghost before = rest@;
        let ghost had = kept@;
        let server = rest.remove(0);
        assert(rest@ =~= before.skip(1));
        if contains_id(assigned, server.server_id) {
            kept.push(server);
            assert(had + (seq![before[0]] + servers_for(before.skip(1), assigned@)) =~= kept@
                + servers_for(rest@, assigned@));
        }
    }
    assert(kept@ + servers_for(rest@, assigned@) =~= kept@);
    kept
}

/// The number is one of 16 bits.
pub open spec fn as_code(t: Tree) -> Option<u16> {
    match t {
        Tree::Int(n) => if 0 <= n <= 65535 {
            Some(n as u16)
        } else {
            None
        },
        _ => None,
    }
}

/// The numbers of a list, where each is one of 16 bits.
pub open spec fn as_codes(items: Seq<Tree>) -> Option<Seq<u16>>
    decreases items.len(),
{
    if items.len() == 0 {
        Some(Seq::empty())
    } else {
        match (as_codes(items.drop_last()), as_code(items.last())) {
            (Some(codes), Some(code)) => Some(codes.push(code)),
            _ => None,
        }
    }
}

/// The statuses on which the next server is tried, as the group stores them. Where what is
/// stored is no list of statuses, they are 429, 500, 502 and 503.
pub open spec fn codes_of(stored: Tree) -> Seq<u16> {
    let default = seq![429u16, 500, 502, 503];
    match stored {
        Tree::Arr(items) => match as_codes(items) {
            Some(codes) => codes,
            None => default,
        },
        _ => default,
    }
}

fn read_codes(items: &Vec<Json>) -> (r: Option<Vec<u16>>)
    ensures
        match r {
            Some(codes) => as_codes(json::values_view(items@)) == Some(codes@),
            None => as_codes(json::values_view(items@)) is None,
        },
{
    let mut codes: Vec<u16> = Vec::new();
    let mut good = true;
    let ghost all = json::values_view(items@);
    assert(as_codes(all.take(0)) == Some(codes@)) by {
        assert(codes@ =~= Seq::empty());
    }
    for i in 0..items.len()
        invariant
            all == json::values_view(items@),
            good ==> as_codes(all.take(i as int)) == Some(codes@),
            !good ==> as_codes(all.take(i as int)) is None,
    {
        let ghost more = all.take(i + 1);
        assert(more.drop_last() =~= all.take(i as int));
        assert(more.last() == items@[i as int]@);
        match items[i].as_u64() {
            Some(n) => if n <= 65535 {
                codes.push(n as u16);
            } else {
                good = false;
            },
            None => {
                good = false;
            },
        }
    }
    assert(all.take(all.len() as int) =~= all);
    if good {
        Some(codes)
    } else {
        None
    }
}

/// Reads the statuses on which the next server is tried.
pub fn failover_codes(stored: &Json) -> (r: Vec<u16>)
    ensures
        r@ == codes_of(stored@),
{
    if let Json::Array(items) = stored {
        if let Some(codes) = read_codes(items) {
            return codes;
        }
    }
    let mut default: Vec<u16> = Vec::new();
    default.push(429);
    default.push(500);
    default.push(502);
    default.push(503);
    assert(default@ =~= seq![429u16, 500, 502, 503]);
    default
}

/// How the search for a key goes on.
#[derive(Debug, Clone, Copy, PartialEq, Eq, Structural)]
pub enum Search {
    /// Look for a sub-key.
    SubKey,
    /// Look for the group of a sub-key.
    Group { group_id: u128, group_key_id: u128 },
    /// Load what belongs to the group; a sub-key found it or its own key did.
    Load { sub_key: Option<u128> },
    /// The sub-key is disabled.
    Disabled { group_id: u128, group_key_id: u128 },
    /// The key is nobody's, or cannot be looked up.
    Unknown,
}

/// What came of a look into the database.
#[derive(Debug, Clone, Copy, PartialEq, Eq, Structural)]
pub enum Lookup {
    Found,
    Missing,
    Failed,
}

/// Goes on after the groups' own keys have been searched.
pub fn after_group_key(lookup: Lookup) -> (r: Search)
    ensures
        r == (match lookup {
            Lookup::Found => Search::Load { sub_key: None },
            Lookup::Missing => Search::SubKey,
            Lookup::Failed => Search::Unknown,
        }),
{
    match lookup {
        Lookup::Found => Search::Load { sub_key: None },
        Lookup::Missing => Search::SubKey,
        Lookup::Failed => Search::Unknown,
    }
}

/// Goes on after the sub-keys have been searched: the row gives the group, whether the
/// sub-key is active, and the sub-key.
pub fn after_sub_key(row: Option<(u128, bool, u128)>) -> (r: Search)
    ensures
        r == (match row {
            Some((group_id, true, group_key_id)) => Search::Group { group_id, group_key_id },
            Some((group_id, false, group_key_id)) => Search::Disabled { group_id, group_key_id },
            None => Search::Unknown,
        }),
{
    match row {
        Some((group_id, active, group_key_id)) => if active {
            Search::Group { group_id, group_key_id }
        } else {
            Search::Disabled { group_id, group_key_id }
        },
        None => Search::Unknown,
    }
}

/// Goes on after the group of a sub-key has been searched.
pub fn after_group(found: bool, group_key_id: u128) -> (r: Search)
    ensures
        r == (if found {
            Search::Load { sub_key: Some(group_key_id) }
        } else {
            Search::Unknown
        }),
{
    if found {
        Search::Load { sub_key: Some(group_key_id) }
    } else {
        Search::Unknown
    }
}

/// A group, as it is stored.
#[derive(Debug)]
pub struct GroupRow {
    pub group_id: u128,
    pub name: String,
    pub api_key: String,
    pub is_active: bool,
    pub failover_status_codes: Json,
    pub ttft_timeout_ms: Option<i32>,
}

/// What belongs to a group and a sub-key; `None` where it could not be loaded.
#[derive(Debug)]
pub struct Loaded {
    pub servers: Option<Vec<Server>>,
    /// The servers assigned to the sub-key.
    pub assigned: Option<Vec<u128>>,
    pub allowed_models: Option<Vec<String>>,
    pub key_allowed_models: Option<Vec<String>>,
    pub blocked_user_agents: Option<Vec<String>>,
}

/// All that is needed could be loaded. What belongs to a sub-key is needed only where one
/// found the group.
pub open spec fn complete(loaded: Loaded, group_key_id: Option<u128>) -> bool {
    &&& loaded.servers is Some
    &&& loaded.allowed_models is Some
    &&& loaded.blocked_user_agents is Some
    &&& group_key_id is Some ==> loaded.assigned is Some && loaded.key_allowed_models is Some
}

/// The configuration says what is stored of the group, and what belongs to it.
pub open spec fn configures(
    config: GroupConfig,
    group: GroupRow,
    group_key_id: Option<u128>,
    loaded: Loaded,
    count_tokens_server: Option<CountTokensServer>,
) -> bool {
    &&& config.group_id == group.group_id
    &&& config.group_name == group.name
    &&& config.api_key == group.api_key
    &&& config.is_active == group.is_active
    &&& config.failover_status_codes@ == codes_of(group.failover_status_codes@)
    &&& config.ttft_timeout_ms == group.ttft_timeout_ms
    &&& config.servers@ == (if group_key_id is Some {
        servers_for(loaded.servers->0@, loaded.assigned->0@)
    } else {
        loaded.servers->0@
    })
    &&& config.count_tokens_server == count_tokens_server
    &&& config.group_key_id == group_key_id
    &&& config.allowed_models == loaded.allowed_models->0
    &&& config.key_allowed_models@ == (if group_key_id is Some {
        loaded.key_allowed_models->0@
    } else {
        Seq::empty()
    })
    &&& config.blocked_user_agents == loaded.blocked_user_agents->0
}

/// Puts the configuration of a group together; `None` where something that is needed could
/// not be loaded.
pub fn assemble(
    group: GroupRow,
    group_key_id: Option<u128>,
    loaded: Loaded,
    count_tokens_server: Option<CountTokensServer>,
) -> (r: Option<GroupConfig>)
    ensures
        r is Some <==> complete(loaded, group_key_id),
        r matches Some(config) ==> configures(
            config,
            group,
            group_key_id,
            loaded,
            count_tokens_server,
        ),
{
    match (loaded.servers, loaded.allowed_models, loaded.blocked_user_agents) {
        (Some(all), Some(allowed_models), Some(blocked_user_agents)) => {
            let (servers, key_allowed_models) = if group_key_id.is_some() {
                match (loaded.assigned, loaded.key_allowed_models) {
                    (Some(assigned), Some(models)) => (assigned_servers(all, &assigned), models),
                    _ => {
                        return None;
                    },
                }
            } else {
                (all, Vec::new())
            };
            Some(
                GroupConfig {
                    group_id: group.group_id,
                    group_name: group.name,
                    api_key: group.api_key,
                    is_active: group.is_active,
                    failover_status_codes: failover_codes(&group.failover_status_codes),
                    ttft_timeout_ms: group.ttft_timeout_ms,
                    servers,
                    count_tokens_server,
                    group_key_id,
                    allowed_models,
                    key_allowed_models,
                    blocked_user_agents,
                },
            )
        },
        _ => None,
    }
}

/// A server that a sub-key with assignments may use is assigned to it, and one of the
/// group's.
pub proof fn law_sub_key_keeps_to_its_servers(servers: Seq<Server>, assigned: Seq<u128>)
    requires
        assigned.len() > 0,
    ensures
        forall|i: int|
            0 <= i < servers_for(servers, assigned).len() ==> assigned.contains(
                (#[trigger] servers_for(servers, assigned)[i]).server_id,
            ) && servers.contains(servers_for(servers, assigned)[i]),
    decreases servers.len(),
{
    if servers.len() > 0 {
        let rest = servers.skip(1);
        law_sub_key_keeps_to_its_servers(rest, assigned);
        let kept = servers_for(servers, assigned);
        let later = servers_for(rest, assigned);
        assert forall|i: int| 0 <= i < kept.len() implies assigned.contains(
            (#[trigger] kept[i]).server_id,
        ) && servers.contains(kept[i]) by {
            let first = assigned.contains(servers[0].server_id);
            if first && i == 0 {
                assert(kept[0] == servers[0]);
            } else {
                let at = if first {
                    i - 1
                } else {
                    i
                };
                assert(kept[i] == later[at]);
                let j = choose|j: int| 0 <= j < rest.len() && rest[j] == later[at];
                assert(servers[j + 1] == kept[i]);
            }
        }
    }
}

} // verus!
