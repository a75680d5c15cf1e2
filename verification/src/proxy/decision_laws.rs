//! What holds of every result of the single decisions: who is charged, what is looked up next,
//! how long is waited, and how a refusal goes on.

use vstd::prelude::*;

use crate::circuit_breaker::{on_failure, on_success, CbState, FailureOutcome, SuccessOutcome};
use crate::json;
use crate::json::{Json, Parsed, Tree};
use crate::proxy::admission::{blocked_paths, enter, let_in};
use crate::proxy::billing::{
    after_bonus, after_check, after_wait, charged, count_plan, key_to_charge, Budget, CountPlan,
    CountSettings, SubCheck, Subscription,
};
use crate::proxy::body;
use crate::proxy::body::{client_wants_stream, extract_request_model, transform_model};
use crate::proxy::config::{
    after_group, after_group_key, after_sub_key, disabled_config, GroupConfig, Lookup, Search,
};
use crate::proxy::journey::{after_fallback, after_servers, after_tokens, Stage};
use crate::proxy::limits::{
    default_non_stream_timeout_ms, effective_non_stream_timeout_ms, extract_usage_tokens,
    log_request_body_enabled, UsageTokens,
};
use crate::proxy::refusal::Refusal;
use crate::proxy::request;
use crate::proxy::request::{body_to_log, Headers};
use crate::proxy::servers;
use crate::proxy::servers::{counters, Caller, Server};
use crate::proxy::side::side_usage;
use crate::text;
use crate::ttft::{plan_queries, TtftQueries, TtftStatsParams};

verus! {

/// A request that has to wait for tokens goes on only with them; it then counts on the
/// requests per minute exactly where these are limited, and never where it is refused.
pub proof fn law_waiting_ends_with_tokens(s: Subscription, has_tokens: bool, r: (Budget, bool))
    requires
        call_ensures(after_wait, (s, has_tokens), r),
    ensures
        r.0 == Budget::Proceed <==> has_tokens,
        !has_tokens ==> r.0 == Budget::Refuse(Refusal::TokensPerMinuteExceeded),
        r.1 <==> has_tokens && s.limits_requests,
{
}

/// The journey counts a request on the requests per minute where the wait does.
pub proof fn law_requests_are_counted_when_sent(
    s: Subscription,
    has_tokens: bool,
    wait: (Budget, bool),
    stage: (Stage, bool),
)
    requires
        call_ensures(after_wait, (s, has_tokens), wait),
        call_ensures(after_tokens, (s, has_tokens), stage),
    ensures
        stage.1 == wait.1,
        stage.1 ==> stage.0 == Stage::Servers(Some(s)),
{
}

/// A subscription with budget is waited for; without any the request is refused; bonus servers
/// come before the subscription behind them, which is waited for once they have failed.
pub proof fn law_budgets_are_spent_in_turn(
    s: Subscription,
    servers: usize,
    allowed: Budget,
    blocked: Budget,
    before: Budget,
    behind: Budget,
    alone: Budget,
)
    requires
        call_ensures(after_check, (SubCheck::Allowed(s),), allowed),
        call_ensures(after_check, (SubCheck::Blocked,), blocked),
        call_ensures(after_check, (SubCheck::Bonus { servers, fallback: Some(s) },), before),
        call_ensures(after_bonus, (SubCheck::Bonus { servers, fallback: Some(s) },), behind),
        call_ensures(after_bonus, (SubCheck::Bonus { servers, fallback: None },), alone),
    ensures
        allowed == Budget::WaitForTokens(s),
        blocked == Budget::Refuse(Refusal::SubscriptionExceeded),
        before == Budget::Proceed,
        servers > 0 ==> behind == Budget::WaitForTokens(s),
        servers == 0 ==> behind == Budget::Proceed,
        alone == Budget::Proceed,
{
}

/// Only a billed request is charged, and to the sub-key it came with; what pays is the
/// subscription that was found, or the one behind the bonus servers.
pub proof fn law_charges_go_to_who_asked(
    billing: bool,
    key: Option<u128>,
    r: Option<u128>,
    check: SubCheck,
    payer: Option<Subscription>,
)
    requires
        call_ensures(key_to_charge, (billing, key), r),
        call_ensures(charged, (check,), payer),
    ensures
        billing ==> r == key,
        !billing ==> r is None,
        check matches SubCheck::Allowed(s) ==> payer == Some(s),
        check == SubCheck::Blocked ==> payer is None,
        check matches SubCheck::Bonus { servers, fallback } ==> payer == fallback,
{
}

/// A key is looked for among the groups' own, then among the sub-keys. A sub-key leads to its
/// group, and, where it is disabled, to nothing but that it is; nothing is loaded for a key
/// that nobody has, nor where the search failed.
pub proof fn law_keys_are_looked_for_in_turn(
    lookup: Lookup,
    first: Search,
    group_id: u128,
    key_id: u128,
    active: Search,
    disabled: Search,
    nobody: Search,
    found: bool,
    last: Search,
)
    requires
        call_ensures(after_group_key, (lookup,), first),
        call_ensures(after_sub_key, (Some((group_id, true, key_id)),), active),
        call_ensures(after_sub_key, (Some((group_id, false, key_id)),), disabled),
        call_ensures(after_sub_key, (None::<(u128, bool, u128)>,), nobody),
        call_ensures(after_group, (found, key_id), last),
    ensures
        lookup == Lookup::Found <==> first == (Search::Load { sub_key: None }),
        lookup == Lookup::Missing <==> first == Search::SubKey,
        lookup == Lookup::Failed <==> first == Search::Unknown,
        active == (Search::Group { group_id, group_key_id: key_id }),
        disabled == (Search::Disabled { group_id, group_key_id: key_id }),
        nobody == Search::Unknown,
        found ==> last == (Search::Load { sub_key: Some(key_id) }),
        !found ==> last == Search::Unknown,
{
}

/// A server's own time limit goes before the common one; a limit that is not positive is none.
pub proof fn law_own_limits_come_first(own: Option<i32>, common: Option<i32>, r: Option<i32>)
    requires
        call_ensures(effective_non_stream_timeout_ms, (own, common), r),
    ensures
        r matches Some(ms) ==> ms > 0,
        own matches Some(ms) ==> (ms > 0 ==> r == own),
        !(own matches Some(ms) && ms > 0) ==> (common matches Some(ms) ==> (ms > 0 ==> r
            == common)),
        !(own matches Some(ms) && ms > 0) && !(common matches Some(ms) && ms > 0) ==> r is None,
{
}

/// Bodies are not logged unless that was asked for; a time limit that was cleared stays so,
/// and where nothing was ever set it is ten minutes.
pub proof fn law_unset_settings_are_careful(
    cached: Option<bool>,
    stored: Option<bool>,
    logs: bool,
    cached_ms: Option<Option<i32>>,
    stored_ms: Option<Option<i32>>,
    ms: Option<i32>,
)
    requires
        call_ensures(log_request_body_enabled, (cached, stored), logs),
        call_ensures(default_non_stream_timeout_ms, (cached_ms, stored_ms), ms),
    ensures
        logs <==> cached == Some(true) || (cached is None && stored == Some(true)),
        cached_ms matches Some(set) ==> ms == set,
        cached_ms is None ==> (stored_ms matches Some(set) ==> ms == set),
        cached_ms is None && stored_ms is None ==> ms == Some(600_000i32),
{
}

/// A refusal for want of servers or budget lets the client's own endpoints try, and any other
/// stands; where they answer, the client is answered, and else it is refused for that reason.
pub proof fn law_refusals_go_on(
    refusal: Refusal,
    next: Stage,
    answered: bool,
    end: Stage,
)
    requires
        call_ensures(after_servers, (refusal,), next),
        call_ensures(after_fallback, (refusal, answered), end),
    ensures
        refusal.code() == 429 ==> next == Stage::Fallback(refusal),
        refusal.code() != 429 ==> next == Stage::Refused(refusal),
        answered ==> end == Stage::Answered,
        !answered ==> end == Stage::Refused(refusal),
{
}

/// A success counts only for a circuit that is being probed, and closes it once there are
/// enough; an error reopens such a circuit at once, and trips another once there are enough.
pub proof fn law_circuits_change_at_the_limit(
    state: CbState,
    count: i64,
    limit: i64,
    success: SuccessOutcome,
    failure: FailureOutcome,
)
    requires
        call_ensures(on_success, (state, count, limit), success),
        call_ensures(on_failure, (state, count, limit), failure),
    ensures
        success == SuccessOutcome::Noop <==> state != CbState::HalfOpen,
        success == SuccessOutcome::Close <==> state == CbState::HalfOpen && count >= limit,
        failure == FailureOutcome::Reopen <==> state == CbState::HalfOpen,
        failure == FailureOutcome::Trip <==> state != CbState::HalfOpen && count >= limit,
{
}

/// A blocked path is not there, whoever asks; on any other path a request enters with its key,
/// and without one it is nobody's.
pub proof fn law_paths_are_looked_at_first(
    blocked: &Vec<String>,
    path: &str,
    headers: &Headers,
    r: Result<String, Refusal>,
)
    requires
        call_ensures(enter, (blocked, path, headers), r),
    ensures
        (exists|i: int| 0 <= i < blocked@.len() && (#[trigger] blocked@[i])@ == path@) ==> r
            == Err::<String, Refusal>(Refusal::NotFound),
        !(exists|i: int| 0 <= i < blocked@.len() && (#[trigger] blocked@[i])@ == path@) ==> match (
            r,
            request::key_of(request::header_views(headers@)),
        ) {
            (Ok(key), Some(known)) => key@ == known,
            (Err(refusal), None) => refusal == Refusal::InvalidKey,
            _ => false,
        },
{
}

/// A key is let in where it is somebody's, is active and comes with a user agent that is not
/// blocked, and a refusal says which of these, in that order, does not hold.
pub proof fn law_keys_are_let_in(
    config: &GroupConfig,
    headers: &Headers,
    r: Result<String, Refusal>,
    nobody: Result<String, Refusal>,
)
    requires
        call_ensures(let_in, (Some(config), headers), r),
        call_ensures(let_in, (None::<&GroupConfig>, headers), nobody),
    ensures
        nobody == Err::<String, Refusal>(Refusal::InvalidKey),
        ({
            let agent = request::agent_of(request::header_views(headers@));
            let blocked = exists|i: int|
                0 <= i < config.blocked_user_agents@.len() && (
                #[trigger] config.blocked_user_agents@[i])@ == agent;
            &&& !config.is_active <==> r == Err::<String, Refusal>(Refusal::KeyDisabled)
            &&& config.is_active && blocked <==> r == Err::<String, Refusal>(Refusal::AccessDenied)
            &&& config.is_active && !blocked <==> r is Ok
            &&& r is Ok ==> r->Ok_0@ == agent
        }),
{
}

/// A disabled sub-key has a configuration that lets nobody in, and that knows whose it was.
pub proof fn law_disabled_keys_let_nobody_in(
    group_id: u128,
    api_key: &str,
    key_id: u128,
    config: GroupConfig,
    headers: &Headers,
    r: Result<String, Refusal>,
)
    requires
        call_ensures(disabled_config, (group_id, api_key, key_id), config),
        call_ensures(let_in, (Some(&config), headers), r),
    ensures
        r == Err::<String, Refusal>(Refusal::KeyDisabled),
        config.group_id == group_id,
        config.api_key@ == api_key@,
        config.group_key_id == Some(key_id),
        config.servers@.len() == 0,
{
}

/// The cache says which paths are blocked; what is stored counts only where it says nothing,
/// and a cache that fails blocks nothing.
pub proof fn law_failures_block_nothing(
    paths: Vec<String>,
    stored: Option<Vec<String>>,
    hit: Vec<String>,
    miss: Vec<String>,
    failed: Vec<String>,
)
    requires
        call_ensures(blocked_paths, (Ok::<Option<Vec<String>>, ()>(Some(paths)), stored), hit),
        call_ensures(blocked_paths, (Ok::<Option<Vec<String>>, ()>(None), stored), miss),
        call_ensures(blocked_paths, (Err::<Option<Vec<String>>, ()>(()), stored), failed),
    ensures
        hit@ == paths@,
        stored matches Some(known) ==> miss@ == known@,
        stored is None ==> miss@.len() == 0,
        failed@.len() == 0,
{
}

/// A request counts on the counters that it is held to: on the server's for its window, and on
/// that of its sub-key for the window of sub-keys.
pub proof fn law_requests_count_where_they_are_limited(
    server: &Server,
    caller: &Caller,
    r: (Option<i32>, Option<(u128, i32)>),
)
    requires
        call_ensures(counters, (server, caller), r),
    ensures
        r.0 is Some <==> servers::server_rate(*server) is Some,
        r.0 is Some ==> r.0 == server.rate_window_seconds,
        r.1 is Some <==> servers::key_rate(*server, *caller) is Some,
        r.1 matches Some(counter) ==> caller.group_key_id == Some(counter.0)
            && server.per_key_rate_window_seconds == Some(counter.1),
{
}

/// Only a client that finds every server overloaded is told when to come again.
pub proof fn law_only_the_overloaded_are_asked_to_wait(refusal: Refusal, r: Option<u32>)
    requires
        call_ensures(Refusal::retry_after, (refusal,), r),
    ensures
        r is Some <==> refusal == Refusal::Overloaded,
        r matches Some(seconds) ==> seconds == 30,
{
}

/// Tokens are counted by an estimate where that is set; by the server that is set, at its own
/// address and with its own key; and by the group where either of these is missing.
pub proof fn law_tokens_are_counted_as_set(settings: CountSettings, r: CountPlan, unset: CountPlan)
    requires
        call_ensures(count_plan, (Some(settings),), r),
        call_ensures(count_plan, (None::<CountSettings>,), unset),
    ensures
        unset is Group,
        r is Estimate <==> settings.always_estimate,
        r is Ask <==> !settings.always_estimate && settings.base_url is Some
            && settings.api_key is Some,
        r matches CountPlan::Ask { url, api_key } ==> settings.api_key == Some(api_key) && url@
            == text::without_end_slashes(settings.base_url->0@) + "/v1/messages/count_tokens"@,
{
}

/// A body is passed on byte for byte where no model is mapped, and where it is no JSON; else
/// only its model may change.
pub proof fn law_unmapped_bodies_are_untouched(body: &[u8], mappings: &Json, r: Vec<u8>)
    requires
        call_ensures(transform_model, (body, mappings), r),
    ensures
        json::parsed(body@) is Malformed || !(mappings@ is Obj) || mappings@ == Tree::Obj(
            Map::<Seq<char>, Tree>::empty(),
        ) ==> r@ == body@,
        json::parsed(body@) matches Parsed::Doc(doc) ==> r@ == body@ || r@ == body::doc_bytes(
            body::with_mapped_model(doc, mappings@),
        ),
{
}

/// The log shows the body itself only where that is switched on, and then only JSON.
pub proof fn law_bodies_are_logged_on_demand(
    body: &[u8],
    shown: Option<Json>,
    hidden: Option<Json>,
)
    requires
        call_ensures(body_to_log, (true, body), shown),
        call_ensures(body_to_log, (false, body), hidden),
    ensures
        json::view_owned(hidden) == Some(Tree::Obj(Map::<Seq<char>, Tree>::empty())),
        json::parsed(body@) matches Parsed::Doc(doc) ==> json::view_owned(shown) == Some(doc),
        json::parsed(body@) is Malformed ==> shown is None,
{
}

/// The tokens of an answer are counted where it is billed, and by its own numbers; a body that
/// is no JSON has none.
pub proof fn law_side_answers_are_billed(
    body: &[u8],
    billed: Option<UsageTokens>,
    free: Option<UsageTokens>,
    read: Option<UsageTokens>,
)
    requires
        call_ensures(side_usage, (true, body), billed),
        call_ensures(side_usage, (false, body), free),
        call_ensures(extract_usage_tokens, (body,), read),
    ensures
        free is None,
        billed == read,
        json::parsed(body@) is Malformed ==> read is None,
{
}

/// What a request says of its model and of streaming is read from its own fields; a body that
/// is no JSON says nothing.
pub proof fn law_requests_are_read_as_they_are(body: &[u8], model: Option<String>, streams: bool)
    requires
        call_ensures(extract_request_model, (body,), model),
        call_ensures(client_wants_stream, (body,), streams),
    ensures
        json::parsed(body@) is Malformed ==> model is None && !streams,
        json::parsed(body@) matches Parsed::Doc(doc) ==> (streams <==> doc.get("stream"@) == Some(
            Tree::Bool(true),
        )) && (model is Some <==> (doc.get("model"@) matches Some(Tree::Str(_)))) && (
        model matches Some(name) ==> doc.get("model"@) == Some(Tree::Str(name@))),
{
}

/// Statistics are asked for of one group; without one nothing is asked. Both queries ask for
/// the same answers, of the range and the sub-key that are bound to them.
pub proof fn law_statistics_are_of_one_group(
    params: &TtftStatsParams,
    r: Result<TtftQueries, &'static str>,
)
    requires
        call_ensures(plan_queries, (params,), r),
    ensures
        r is Ok <==> params.group_id is Some,
        r matches Ok(queries) ==> params.group_id == Some(queries.group_id)
            && queries.group_key_id == params.group_key_id && (queries.range is Some
            <==> params.start is Some && params.end is Some) && (queries.range matches Some(range)
            ==> params.start == Some(range.0) && params.end == Some(range.1)),
{
}

} // verus!
