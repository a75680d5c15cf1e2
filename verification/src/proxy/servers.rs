//! The servers of a group, and which of them a request may be sent to.
//!
//! A server is skipped for one of several reasons. Some are asked of the outside (whether it
//! has reached its request limit, whether its circuit is closed); the questions are asked
//! one at a time, and the circuit last, so that a probe permit is never acquired for a
//! server that is then skipped.

use vstd::prelude::*;

use crate::circuit_breaker::Access;
use crate::json::{Json, Tree};
use crate::proxy::failover::Breaker;
use crate::proxy::hours::ActiveHours;
use crate::text::str_eq;
use crate::translate::chat;

verus! {

/// When the same server is tried again.
#[derive(Debug)]
pub struct Retry {
    pub status_codes: Vec<i32>,
    pub count: i32,
}

/// A server, as a group uses it.
#[derive(Debug)]
pub struct Server {
    pub server_id: u128,
    pub short_id: i32,
    pub server_name: String,
    pub base_url: String,
    pub api_key: Option<String>,
    pub system_prompt: Option<String>,
    pub remove_thinking: bool,
    pub model_mappings: Json,
    pub breaker: Option<Breaker>,
    pub max_requests: Option<i32>,
    pub rate_window_seconds: Option<i32>,
    pub per_key_max_requests: Option<i32>,
    pub per_key_rate_window_seconds: Option<i32>,
    pub max_input_tokens: Option<i32>,
    pub min_input_tokens: Option<i32>,
    pub supported_models: Vec<String>,
    pub active_hours: ActiveHours,
    pub retry: Option<Retry>,
    pub custom_headers: Option<Json>,
    pub non_stream_timeout_ms: Option<i32>,
}

/// What of a request decides where it may go.
#[derive(Debug)]
pub struct Caller {
    /// The sub-key of the group that the request came with.
    pub group_key_id: Option<u128>,
    /// The keys for single servers, by short id, that the request brought along.
    pub dynamic_keys: Vec<(i32, String)>,
    pub model: Option<String>,
    pub estimated_tokens: Option<usize>,
    /// The server that has already been asked to count tokens.
    pub asked_before: Option<u128>,
}

/// The key that the request brought along for a server.
pub open spec fn dynamic_key(keys: Seq<(i32, String)>, short_id: i32) -> Option<Seq<char>>
    decreases keys.len(),
{
    if keys.len() == 0 {
        None
    } else if keys[0].0 == short_id {
        Some(keys[0].1@)
    } else {
        dynamic_key(keys.skip(1), short_id)
    }
}

/// Finds the key that the request brought along for a server.
pub fn find_dynamic_key<'a>(keys: &'a Vec<(i32, String)>, short_id: i32) -> (r: Option<&'a String>)
    ensures
        match r {
            Some(key) => dynamic_key(keys@, short_id) == Some(key@),
            None => dynamic_key(keys@, short_id) is None,
        },
{
    assert(keys@.skip(0) =~= keys@);
    for i in 0..keys.len()
        invariant
            dynamic_key(keys@, short_id) == dynamic_key(keys@.skip(i as int), short_id),
    {
        let ghost rest = keys@.skip(i as int);
        assert(rest[0] == keys@[i as int]);
        assert(rest.skip(1) =~= keys@.skip(i + 1));
        if keys[i].0 == short_id {
            return Some(&keys[i].1);
        }
    }
    None
}

/// The key that a server is sent: the one that the request brought along, else its own.
pub open spec fn key_for(
    dynamic_keys: Seq<(i32, String)>,
    short_id: i32,
    own: Option<Seq<char>>,
) -> Option<Seq<char>> {
    match dynamic_key(dynamic_keys, short_id) {
        Some(key) => Some(key),
        None => own,
    }
}

/// Resolves the key that a server is sent. Without one it is skipped.
pub fn resolve_key(
    dynamic_keys: &Vec<(i32, String)>,
    short_id: i32,
    own: &Option<String>,
) -> (r: Option<String>)
    ensures
        chat::text_opt(r) == key_for(dynamic_keys@, short_id, chat::text_opt(*own)),
{
    match find_dynamic_key(dynamic_keys, short_id) {
        Some(key) => Some(key.clone()),
        None => match own {
            Some(key) => Some(key.clone()),
            None => None,
        },
    }
}

/// What is billed of a key: whether the request brought it along, and the key, unless it is
/// empty or there is none.
pub fn billed_key(
    dynamic_keys: &Vec<(i32, String)>,
    short_id: i32,
    own: &Option<String>,
) -> (r: (bool, Option<String>))
    ensures
        r.0 == (dynamic_key(dynamic_keys@, short_id) is Some),
        chat::text_opt(r.1) == (match key_for(dynamic_keys@, short_id, chat::text_opt(*own)) {
            Some(key) => if key.len() == 0 {
                None
            } else {
                Some(key)
            },
            None => None,
        }),
{
    let brought = find_dynamic_key(dynamic_keys, short_id).is_some();
    match resolve_key(dynamic_keys, short_id, own) {
        Some(key) => if str_eq(key.as_str(), "") {
            proof {
                reveal_strlit("");
            }
            (brought, None)
        } else {
            proof {
                reveal_strlit("");
                if key@.len() == 0 {
                    assert(key@ =~= ""@);
                }
            }
            (brought, Some(key))
        },
        None => (brought, None),
    }
}

/// A question that the outside answers.
#[derive(Debug, Clone, Copy, PartialEq, Eq, Structural)]
pub enum Query {
    /// Has the server reached this number of requests?
    ServerRate { max_requests: i32 },
    /// Has the sub-key reached this number of requests to the server?
    KeyRate { key_id: u128, max_requests: i32 },
    /// Is the server within its active hours?
    ActiveHours,
    /// What access does the circuit breaker give?
    Breaker,
}

/// What is known of a server so far.
#[derive(Debug, Clone, Copy, PartialEq, Eq, Structural)]
pub enum Gate {
    /// Ask this, and go on with the answer.
    Ask(Query),
    /// Skip the server.
    Skip { rate_limited: bool },
    /// Send the request, as the probe of a half-open circuit or not.
    Try { probe: bool },
}

/// The model is one that the server is for: it has no list of models, or the request no
/// model, or the model is on the list, or is mapped to another.
pub open spec fn supports(server: Server, model: Option<Seq<char>>) -> bool {
    match model {
        Some(model) => {
            ||| server.supported_models@.len() == 0
            ||| exists|i: int|
                0 <= i < server.supported_models@.len() && (
                #[trigger] server.supported_models@[i])@ == model
            ||| (server.model_mappings@ matches Tree::Obj(m) && m.dom().contains(model))
        },
        None => true,
    }
}

/// Whether one of the texts is this one.
pub fn holds_text(texts: &Vec<String>, s: &str) -> (r: bool)
    ensures
        r == exists|i: int| 0 <= i < texts@.len() && (#[trigger] texts@[i])@ == s@,
{
    for i in 0..texts.len()
        invariant
            forall|j: int| 0 <= j < i ==> (#[trigger] texts@[j])@ != s@,
    {
        if str_eq(texts[i].as_str(), s) {
            assert(texts@[i as int]@ == s@);
            return true;
        }
    }
    false
}

/// Whether the server is for requests with this model.
pub fn supports_model(server: &Server, model: &Option<String>) -> (r: bool)
    ensures
        r == supports(*server, chat::text_opt(*model)),
{
    match model {
        Some(model) => {
            if server.supported_models.len() == 0 {
                return true;
            }
            if holds_text(&server.supported_models, model.as_str()) {
                return true;
            }
            match server.model_mappings.get(model.as_str()) {
                Some(_) => true,
                None => false,
            }
        },
        None => true,
    }
}

/// The size of the request is within the limits of the server. A request whose size is not
/// known always is.
pub open spec fn fits(server: Server, estimated_tokens: Option<usize>) -> bool {
    match estimated_tokens {
        Some(tokens) => {
            &&& server.max_input_tokens matches Some(limit) ==> tokens <= limit as usize
            &&& server.min_input_tokens matches Some(limit) ==> tokens >= limit as usize
        },
        None => true,
    }
}

fn fits_limits(server: &Server, estimated_tokens: Option<usize>) -> (r: bool)
    ensures
        r == fits(*server, estimated_tokens),
{
    match estimated_tokens {
        Some(tokens) => {
            if let Some(limit) = server.max_input_tokens {
                if tokens > #[verifier::truncate] (limit as usize) {
                    return false;
                }
            }
            if let Some(limit) = server.min_input_tokens {
                if tokens < #[verifier::truncate] (limit as usize) {
                    return false;
                }
            }
            true
        },
        None => true,
    }
}

/// The limit on the requests to the server, where there is one.
pub open spec fn server_rate(server: Server) -> Option<i32> {
    if server.rate_window_seconds is Some {
        server.max_requests
    } else {
        None
    }
}

/// The limit on the requests of a sub-key to the server, where there is one.
pub open spec fn key_rate(server: Server, caller: Caller) -> Option<(u128, i32)> {
    match (server.per_key_max_requests, server.per_key_rate_window_seconds, caller.group_key_id) {
        (Some(max_requests), Some(_), Some(key_id)) => Some((key_id, max_requests)),
        _ => None,
    }
}

/// After the request limits: the request itself.
pub open spec fn gate_request(server: Server, caller: Caller) -> Gate {
    if fits(server, caller.estimated_tokens) && supports(server, chat::text_opt(caller.model)) {
        Gate::Ask(Query::ActiveHours)
    } else {
        Gate::Skip { rate_limited: false }
    }
}

fn ask_request(server: &Server, caller: &Caller) -> (r: Gate)
    ensures
        r == gate_request(*server, *caller),
{
    if fits_limits(server, caller.estimated_tokens) && supports_model(server, &caller.model) {
        Gate::Ask(Query::ActiveHours)
    } else {
        Gate::Skip { rate_limited: false }
    }
}

/// After the server's request limit: that of the sub-key.
pub open spec fn gate_key_rate(server: Server, caller: Caller) -> Gate {
    match key_rate(server, caller) {
        Some((key_id, max_requests)) => Gate::Ask(Query::KeyRate { key_id, max_requests }),
        None => gate_request(server, caller),
    }
}

fn ask_key_rate(server: &Server, caller: &Caller) -> (r: Gate)
    ensures
        r == gate_key_rate(*server, *caller),
{
    match (server.per_key_max_requests, server.per_key_rate_window_seconds, caller.group_key_id) {
        (Some(max_requests), Some(_), Some(key_id)) => Gate::Ask(
            Query::KeyRate { key_id, max_requests },
        ),
        _ => ask_request(server, caller),
    }
}

/// The server may be considered: it has not been asked before, and there is a key for it.
pub open spec fn considered(server: Server, caller: Caller) -> bool {
    caller.asked_before != Some(server.server_id) && key_for(
        caller.dynamic_keys@,
        server.short_id,
        chat::text_opt(server.api_key),
    ) is Some
}

/// The first question about a server.
pub open spec fn gate_start(server: Server, caller: Caller) -> Gate {
    if !considered(server, caller) {
        Gate::Skip { rate_limited: false }
    } else {
        match server_rate(server) {
            Some(max_requests) => Gate::Ask(Query::ServerRate { max_requests }),
            None => gate_key_rate(server, caller),
        }
    }
}

/// The first question about a server.
pub fn start_gate(server: &Server, caller: &Caller) -> (r: Gate)
    ensures
        r == gate_start(*server, *caller),
{
    if let Some(asked) = caller.asked_before {
        if asked == server.server_id {
            return Gate::Skip { rate_limited: false };
        }
    }
    if find_dynamic_key(&caller.dynamic_keys, server.short_id).is_none()
        && server.api_key.is_none() {
        return Gate::Skip { rate_limited: false };
    }
    match (server.max_requests, server.rate_window_seconds) {
        (Some(max_requests), Some(_)) => Gate::Ask(Query::ServerRate { max_requests }),
        _ => ask_key_rate(server, caller),
    }
}

/// What follows on the answer to a question.
pub open spec fn gate_next(server: Server, caller: Caller, query: Query, yes: bool) -> Gate {
    match query {
        Query::ServerRate { .. } => if yes {
            Gate::Skip { rate_limited: true }
        } else {
            gate_key_rate(server, caller)
        },
        Query::KeyRate { .. } => if yes {
            Gate::Skip { rate_limited: true }
        } else {
            gate_request(server, caller)
        },
        Query::ActiveHours => if !yes {
            Gate::Skip { rate_limited: false }
        } else if server.breaker is Some {
            Gate::Ask(Query::Breaker)
        } else {
            Gate::Try { probe: false }
        },
        Query::Breaker => Gate::Ask(Query::Breaker),
    }
}

/// Goes on with the answer to a question. The question of the circuit breaker has more than
/// two answers, and stands until it is answered with [`after_access`].
pub fn after_query(server: &Server, caller: &Caller, query: Query, yes: bool) -> (r: Gate)
    ensures
        r == gate_next(*server, *caller, query, yes),
{
    match query {
        Query::ServerRate { .. } => if yes {
            Gate::Skip { rate_limited: true }
        } else {
            ask_key_rate(server, caller)
        },
        Query::KeyRate { .. } => if yes {
            Gate::Skip { rate_limited: true }
        } else {
            ask_request(server, caller)
        },
        Query::ActiveHours => if !yes {
            Gate::Skip { rate_limited: false }
        } else if server.breaker.is_some() {
            Gate::Ask(Query::Breaker)
        } else {
            Gate::Try { probe: false }
        },
        Query::Breaker => Gate::Ask(Query::Breaker),
    }
}

/// What follows on the access that the circuit breaker gives.
pub open spec fn gate_access(access: Access) -> Gate {
    match access {
        Access::Allow => Gate::Try { probe: false },
        Access::Probe => Gate::Try { probe: true },
        Access::Skip => Gate::Skip { rate_limited: false },
    }
}

/// Goes on with the access that the circuit breaker gives. Nothing is asked after it.
pub fn after_access(access: Access) -> (r: Gate)
    ensures
        r == gate_access(access),
{
    match access {
        Access::Allow => Gate::Try { probe: false },
        Access::Probe => Gate::Try { probe: true },
        Access::Skip => Gate::Skip { rate_limited: false },
    }
}

/// The counters that a request to the server counts on, each with its window in seconds:
/// the server's, and that of the sub-key.
pub fn counters(server: &Server, caller: &Caller) -> (r: (Option<i32>, Option<(u128, i32)>))
    ensures
        r.0 == (if server.max_requests is Some {
            server.rate_window_seconds
        } else {
            None
        }),
        r.1 == (match (
            server.per_key_max_requests,
            server.per_key_rate_window_seconds,
            caller.group_key_id,
        ) {
            (Some(_), Some(window), Some(key_id)) => Some((key_id, window)),
            _ => None,
        }),
{
    let own = if server.max_requests.is_some() {
        server.rate_window_seconds
    } else {
        None
    };
    match (server.per_key_max_requests, server.per_key_rate_window_seconds, caller.group_key_id) {
        (Some(_), Some(window), Some(key_id)) => (own, Some((key_id, window))),
        _ => (own, None),
    }
}

/// The answers that the outside has ready.
pub struct Answers {
    pub server_limited: bool,
    pub key_limited: bool,
    pub active: bool,
    pub access: Access,
}

/// What the questions come to, one after the other.
pub open spec fn verdict(server: Server, caller: Caller, gate: Gate, answers: Answers) -> Gate
    decreases
            (match gate {
                Gate::Ask(Query::ServerRate { .. }) => 4int,
                Gate::Ask(Query::KeyRate { .. }) => 3,
                Gate::Ask(Query::ActiveHours) => 2,
                Gate::Ask(Query::Breaker) => 1,
                _ => 0,
            }),
{
    match gate {
        Gate::Ask(Query::Breaker) => gate_access(answers.access),
        Gate::Ask(query) => verdict(
            server,
            caller,
            gate_next(
                server,
                caller,
                query,
                match query {
                    Query::ServerRate { .. } => answers.server_limited,
                    Query::KeyRate { .. } => answers.key_limited,
                    _ => answers.active,
                },
            ),
            answers,
        ),
        _ => gate,
    }
}

/// A request limit keeps the request from a server that is otherwise considered.
pub open spec fn is_limited(server: Server, caller: Caller, answers: Answers) -> bool {
    (server_rate(server) is Some && answers.server_limited) || (key_rate(server, caller) is Some
        && answers.key_limited)
}

/// A request is sent to a server exactly when the server is considered, no request limit is
/// reached, the request fits it, it supports the model, it is within its active hours and
/// its circuit gives access; it is the probe exactly when the circuit says so. A skip counts
/// as one for a request limit exactly when such a limit kept the request from a server that
/// is considered.
pub proof fn law_what_a_server_is_skipped_for(server: Server, caller: Caller, answers: Answers)
    ensures
        ({
            let gate = verdict(server, caller, gate_start(server, caller), answers);
            let open = considered(server, caller) && !is_limited(server, caller, answers) && fits(
                server,
                caller.estimated_tokens,
            ) && supports(server, chat::text_opt(caller.model)) && answers.active && (
            server.breaker is Some ==> answers.access != Access::Skip);
            gate == if open {
                Gate::Try { probe: server.breaker is Some && answers.access == Access::Probe }
            } else {
                Gate::Skip {
                    rate_limited: considered(server, caller) && is_limited(
                        server,
                        caller,
                        answers,
                    ),
                }
            }
        }),
{
    reveal_with_fuel(verdict, 5);
}

/// A server with no circuit breaker is never probed.
pub proof fn law_probes_have_a_breaker(server: Server, caller: Caller, answers: Answers)
    ensures
        verdict(server, caller, gate_start(server, caller), answers) == (Gate::Try { probe: true })
            ==> server.breaker is Some,
{
    law_what_a_server_is_skipped_for(server, caller, answers);
}

} // verus!
