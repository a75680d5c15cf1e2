//! What holds of who may send a request, who pays for it, and how it is refused.

use vstd::prelude::*;

use crate::json::Tree;
use crate::proxy::admission;
use crate::proxy::billing;
use crate::proxy::billing::{Charge, Price, SubCheck, Subscription};
use crate::proxy::config;
use crate::proxy::config::{CountTokensServer, GroupConfig, GroupRow, Loaded};
use crate::proxy::journey;
use crate::proxy::journey::Stage;
use crate::proxy::refusal::Refusal;
use crate::proxy::servers::Server;

verus! {

/// Some text of the list is this one.
pub open spec fn is_on(list: Seq<String>, s: Seq<char>) -> bool {
    exists|i: int| 0 <= i < list.len() && (#[trigger] list[i])@ == s
}

/// Without a list of models a group allows every request. With one, a request is to name a
/// model on it; and where the sub-key has a list too, one that is on both.
pub proof fn law_models_are_allowed_by_their_lists(config: GroupConfig, model: Seq<char>)
    ensures
        config.allowed_models@.len() == 0 ==> admission::may_use(config, Some(model))
            && admission::may_use(config, None),
        config.allowed_models@.len() > 0 ==> !admission::may_use(config, None),
        config.allowed_models@.len() > 0 && config.key_allowed_models@.len() == 0 ==> (
        admission::may_use(config, Some(model)) <==> is_on(config.allowed_models@, model)),
        config.allowed_models@.len() > 0 && config.key_allowed_models@.len() > 0 ==> (
        admission::may_use(config, Some(model)) <==> is_on(config.allowed_models@, model) && is_on(
            config.key_allowed_models@,
            model,
        )),
        admission::listed(config.blocked_user_agents@, model) <==> is_on(
            config.blocked_user_agents@,
            model,
        ),
{
}

/// The servers of a sub-key are those assigned to it, in the order of the group's; without an
/// assignment they are all of the group's.
pub proof fn law_servers_are_chosen_one_by_one(
    server: Server,
    rest: Seq<Server>,
    assigned: Seq<u128>,
)
    ensures
        config::servers_for(rest, Seq::empty()) == rest,
        config::servers_for(Seq::empty(), assigned) == Seq::<Server>::empty(),
        assigned.len() > 0 ==> config::servers_for(seq![server] + rest, assigned) == if exists|
            i: int,
        |
            0 <= i < assigned.len() && #[trigger] assigned[i] == server.server_id {
            seq![server] + config::servers_for(rest, assigned)
        } else {
            config::servers_for(rest, assigned)
        },
{
    assert((seq![server] + rest).skip(1) =~= rest);
    assert((seq![server] + rest)[0] == server);
    assert(config::servers_for(Seq::empty(), assigned) =~= Seq::<Server>::empty());
}

/// The item is a number of 16 bits.
pub open spec fn is_code(item: Tree) -> bool {
    item matches Tree::Int(n) && 0 <= n <= 65535
}

proof fn lemma_codes(items: Seq<Tree>)
    ensures
        config::as_codes(items) is Some <==> forall|i: int|
            0 <= i < items.len() ==> is_code(#[trigger] items[i]),
        config::as_codes(items) matches Some(codes) ==> codes.len() == items.len() && forall|i: int|
            0 <= i < items.len() ==> Tree::Int(#[trigger] codes[i] as int) == items[i],
    decreases items.len(),
{
    if items.len() > 0 {
        let rest = items.drop_last();
        lemma_codes(rest);
        assert(items.last() == items[items.len() - 1]);
        assert forall|i: int| 0 <= i < rest.len() implies rest[i] == items[i] by {}
        if forall|i: int| 0 <= i < items.len() ==> is_code(#[trigger] items[i]) {
            assert(is_code(items[items.len() - 1]));
            assert forall|i: int| 0 <= i < rest.len() implies is_code(#[trigger] rest[i]) by {
                assert(is_code(items[i]));
            }
        }
        if config::as_codes(items) is Some {
            assert forall|i: int| 0 <= i < items.len() implies is_code(#[trigger] items[i]) by {
                if i < rest.len() {
                    assert(is_code(rest[i]));
                }
            }
        }
    }
}

/// The statuses on which the next server is tried are the numbers that are stored, in their
/// order. Where something else is stored they are 429, 500, 502 and 503.
pub proof fn law_stored_statuses_are_used(stored: Tree)
    ensures
        (stored matches Tree::Arr(items) && forall|i: int|
            0 <= i < items.len() ==> is_code(#[trigger] items[i])) ==> config::codes_of(stored).len()
            == stored->Arr_0.len() && forall|i: int|
            0 <= i < stored->Arr_0.len() ==> Tree::Int(#[trigger] config::codes_of(stored)[i] as int)
                == stored->Arr_0[i],
        !(stored matches Tree::Arr(items) && forall|i: int|
            0 <= i < items.len() ==> is_code(#[trigger] items[i])) ==> config::codes_of(stored)
            == seq![429u16, 500, 502, 503],
{
    if let Tree::Arr(items) = stored {
        lemma_codes(items);
    }
}

/// A configuration holds what is stored of its group, each under its own name. What belongs to
/// a sub-key counts only where a sub-key found the group.
pub proof fn law_configuration_is_the_groups(
    built: GroupConfig,
    group: GroupRow,
    group_key_id: Option<u128>,
    loaded: Loaded,
    count_tokens_server: Option<CountTokensServer>,
)
    requires
        config::configures(built, group, group_key_id, loaded, count_tokens_server),
        config::complete(loaded, group_key_id),
    ensures
        built.group_id == group.group_id,
        built.group_name == group.name,
        built.api_key == group.api_key,
        built.is_active == group.is_active,
        built.ttft_timeout_ms == group.ttft_timeout_ms,
        built.group_key_id == group_key_id,
        built.count_tokens_server == count_tokens_server,
        loaded.allowed_models == Some(built.allowed_models),
        loaded.blocked_user_agents == Some(built.blocked_user_agents),
        built.failover_status_codes@ == config::codes_of(group.failover_status_codes@),
        group_key_id is None ==> (loaded.servers matches Some(servers) && built.servers@
            == servers@) && built.key_allowed_models@.len() == 0,
        group_key_id is Some ==> (loaded.key_allowed_models matches Some(models)
            && built.key_allowed_models@ == models@) && (loaded.servers matches Some(servers) && (
        loaded.assigned matches Some(assigned) && built.servers@ == config::servers_for(
            servers@,
            assigned@,
        ))),
{
}

/// Nothing is configured from half of what is needed; what belongs to a sub-key is not needed
/// where the group's own key came.
pub proof fn law_nothing_is_left_out(loaded: Loaded, key_id: u128)
    ensures
        config::complete(loaded, None) <==> loaded.servers is Some && loaded.allowed_models is Some
            && loaded.blocked_user_agents is Some,
        config::complete(loaded, Some(key_id)) <==> config::complete(loaded, None)
            && loaded.assigned is Some && loaded.key_allowed_models is Some,
{
}

/// A request is priced by what it is charged to. Without a model there is no price. Charged to
/// nobody, or streamed on a bonus subscription, it has that of the table and is no one's cost;
/// charged by the request, the flat one; else that of the table, or nothing.
pub proof fn law_price_follows_the_charge(streamed: bool, kind: &str)
    ensures
        forall|charge: Charge| #[trigger]
            billing::pricing(streamed, false, charge) == (Price::Unpriced, false),
        billing::pricing(streamed, true, Charge::Nobody) == (Price::Table, false),
        billing::pricing(streamed, true, Charge::Unknown) == (Price::Unpriced, false),
        billing::pricing(streamed, true, Charge::Subscription(kind)).0 == Price::Flat <==> kind@
            == "pay_per_request"@,
        billing::pricing(streamed, true, Charge::Subscription(kind)).0 == Price::Table <==> streamed
            && kind@ == "bonus"@,
        kind@ != "pay_per_request"@ && !(streamed && kind@ == "bonus"@) ==> billing::pricing(
            streamed,
            true,
            Charge::Subscription(kind),
        ) == (Price::TableOrZero, true),
{
    reveal_strlit("pay_per_request");
    reveal_strlit("bonus");
    assert("pay_per_request"@.len() == 15 && "bonus"@.len() == 5);
}

/// Who has been answered is not charged. Only a billed request of a sub-key is checked for a
/// subscription; every other one goes to the servers, and nobody pays.
pub proof fn law_only_billed_sub_keys_are_charged(billed: bool, group_key_id: Option<u128>)
    ensures
        journey::after_priority_stage(true, billed, group_key_id) == Stage::Answered,
        !billed || group_key_id is None ==> journey::after_priority_stage(
            false,
            billed,
            group_key_id,
        ) == Stage::Servers(None),
        billed && group_key_id is Some ==> journey::after_priority_stage(
            false,
            billed,
            group_key_id,
        ) == Stage::Subscriptions(group_key_id->0),
{
}

/// The subscription that was found to have budget is the one that is waited for, and the one
/// that pays; one that stands behind bonus servers pays once these have failed, and one that
/// has no tokens pays nothing.
pub proof fn law_the_same_subscription_pays(
    subscription: Subscription,
    check: SubCheck,
    servers: usize,
)
    ensures
        journey::after_subscriptions_stage(SubCheck::Allowed(subscription)) == Stage::Tokens(
            subscription,
        ),
        check is Bonus ==> journey::after_subscriptions_stage(check) == Stage::Bonus(check),
        journey::after_tokens_stage(subscription, true) == Stage::Servers(Some(subscription)),
        journey::after_tokens_stage(subscription, false) == Stage::Fallback(
            Refusal::TokensPerMinuteExceeded,
        ),
        journey::after_bonus_stage(check, true) == Stage::Answered,
        journey::after_bonus_stage(SubCheck::Bonus { servers, fallback: None }, false)
            == Stage::Servers(None),
        journey::after_bonus_stage(
            SubCheck::Bonus { servers: 0, fallback: Some(subscription) },
            false,
        ) == Stage::Servers(Some(subscription)),
{
}

/// A refusal has a status and a type that fit: what is not there, who is not known, who may
/// not, what is too large, what went wrong upstream, and, for everything else, come again.
pub proof fn law_refusals_are_told_by_their_status(refusal: Refusal)
    ensures
        refusal.code() == 404 <==> refusal == Refusal::NotFound,
        refusal.code() == 401 <==> refusal == Refusal::InvalidKey,
        refusal.code() == 403 <==> refusal == Refusal::KeyDisabled || refusal
            == Refusal::AccessDenied || refusal == Refusal::ModelNotAllowed,
        refusal.code() == 413 <==> refusal == Refusal::BodyTooLarge,
        refusal.code() == 502 <==> refusal == Refusal::UnreadableAnswer,
        refusal.code() == 504 <==> refusal == Refusal::AnswerTimedOut,
        refusal.code() == 429 <==> refusal == Refusal::SubscriptionExceeded || refusal
            == Refusal::TokensPerMinuteExceeded || refusal == Refusal::RateLimited || refusal
            == Refusal::NoServerKeys || refusal == Refusal::Overloaded,
        refusal.yields() <==> refusal == Refusal::SubscriptionExceeded || refusal
            == Refusal::TokensPerMinuteExceeded || refusal == Refusal::RateLimited || refusal
            == Refusal::NoServerKeys || refusal == Refusal::Overloaded,
        refusal.code() == 404 ==> refusal.kind() == "not_found_error"@,
        refusal.code() == 401 || refusal == Refusal::NoServerKeys ==> refusal.kind()
            == "authentication_error"@,
        refusal.code() == 403 ==> refusal.kind() == "permission_error"@,
        refusal.code() == 413 ==> refusal.kind() == "invalid_request_error"@,
        refusal.code() == 502 || refusal.code() == 504 ==> refusal.kind() == "api_error"@,
        refusal == Refusal::Overloaded ==> refusal.kind() == "overloaded_error"@,
        refusal.code() == 429 && refusal != Refusal::NoServerKeys && refusal != Refusal::Overloaded
            ==> refusal.kind() == "rate_limit_error"@,
{
}

/// A refusal says why in its own words.
pub proof fn law_refusals_say_why(refusal: Refusal)
    ensures
        refusal == Refusal::NotFound ==> refusal.words() == "Not found"@,
        refusal == Refusal::InvalidKey ==> refusal.words() == "Invalid API key"@,
        refusal == Refusal::KeyDisabled ==> refusal.words() == "API key is disabled"@,
        refusal == Refusal::AccessDenied ==> refusal.words() == "Access denied"@,
        refusal == Refusal::BodyTooLarge ==> refusal.words()
            == "Request body too large. Maximum allowed size is 100 MB"@,
        refusal == Refusal::ModelNotAllowed ==> refusal.words()
            == "Your API key does not have permission to use the specified model."@,
        refusal == Refusal::SubscriptionExceeded ==> refusal.words()
            == "Subscription limit exceeded"@,
        refusal == Refusal::TokensPerMinuteExceeded ==> refusal.words()
            == "TPM limit exceeded, please retry later"@,
        refusal == Refusal::RateLimited ==> refusal.words() == "Rate limit exceeded"@,
        refusal == Refusal::NoServerKeys ==> refusal.words() == "No server keys configured"@,
        refusal == Refusal::Overloaded ==> refusal.words() == "All upstream servers unavailable"@,
        refusal == Refusal::UnreadableAnswer ==> refusal.words()
            == "Failed to read upstream response body"@,
        refusal == Refusal::AnswerTimedOut ==> refusal.words()
            == "Upstream timed out while sending the response body"@,
{
}

} // verus!
