//! The way of a request that was let in: the client's own endpoints with priority, the
//! subscription, bonus servers, the servers of the group, and, where all fails, the client's
//! own endpoints for that case.

use vstd::prelude::*;

use crate::proxy::billing::{
    after_bonus, after_check, after_wait, charged, key_to_charge, Budget, SubCheck, Subscription,
};
use crate::proxy::refusal::Refusal;

verus! {

/// Where a request stands.
#[derive(Debug, Clone, Copy, PartialEq, Eq, Structural)]
pub enum Stage {
    /// The client's endpoints with priority are tried.
    Priority,
    /// The subscriptions of this sub-key are checked.
    Subscriptions(u128),
    /// Tokens per minute of this subscription are waited for.
    Tokens(Subscription),
    /// Bonus servers are tried.
    Bonus(SubCheck),
    /// The servers of the group are tried; this subscription pays.
    Servers(Option<Subscription>),
    /// The client's fallback endpoints are tried, before the request is refused.
    Fallback(Refusal),
    /// The client has been answered by a server.
    Answered,
    /// The request is refused.
    Refused(Refusal),
}

/// Where a budget leads to, if this subscription pays.
pub open spec fn led(budget: Budget, payer: Option<Subscription>) -> Stage {
    match budget {
        Budget::WaitForTokens(subscription) => Stage::Tokens(subscription),
        Budget::Refuse(refusal) => Stage::Fallback(refusal),
        Budget::Proceed => Stage::Servers(payer),
    }
}

fn lead(budget: Budget, payer: Option<Subscription>) -> (r: Stage)
    ensures
        r == led(budget, payer),
{
    match budget {
        Budget::WaitForTokens(subscription) => Stage::Tokens(subscription),
        Budget::Refuse(refusal) => Stage::Fallback(refusal),
        Budget::Proceed => Stage::Servers(payer),
    }
}

/// After the endpoints with priority.
pub open spec fn after_priority_stage(
    answered: bool,
    billed: bool,
    group_key_id: Option<u128>,
) -> Stage {
    if answered {
        Stage::Answered
    } else {
        match group_key_id {
            Some(key_id) => if billed {
                Stage::Subscriptions(key_id)
            } else {
                Stage::Servers(None)
            },
            None => Stage::Servers(None),
        }
    }
}

/// Goes on after the endpoints with priority: only billed requests of sub-keys are charged.
pub fn after_priority(answered: bool, billed: bool, group_key_id: Option<u128>) -> (r: Stage)
    ensures
        r == after_priority_stage(answered, billed, group_key_id),
{
    if answered {
        return Stage::Answered;
    }
    match key_to_charge(billed, group_key_id) {
        Some(key_id) => Stage::Subscriptions(key_id),
        None => Stage::Servers(None),
    }
}

/// After the check of the subscriptions.
pub open spec fn after_subscriptions_stage(check: SubCheck) -> Stage {
    match check {
        SubCheck::Allowed(subscription) => Stage::Tokens(subscription),
        SubCheck::Blocked => Stage::Fallback(Refusal::SubscriptionExceeded),
        SubCheck::Bonus { .. } => Stage::Bonus(check),
    }
}

/// Goes on after the check of the subscriptions.
pub fn after_subscriptions(check: SubCheck) -> (r: Stage)
    ensures
        r == after_subscriptions_stage(check),
{
    match after_check(check) {
        Budget::Proceed => Stage::Bonus(check),
        budget => lead(budget, None),
    }
}

/// After the wait for tokens per minute.
pub open spec fn after_tokens_stage(subscription: Subscription, has_tokens: bool) -> Stage {
    if has_tokens {
        Stage::Servers(Some(subscription))
    } else {
        Stage::Fallback(Refusal::TokensPerMinuteExceeded)
    }
}

/// Goes on after the wait for tokens per minute; the flag says whether the request counts on
/// the requests per minute of the subscription.
pub fn after_tokens(subscription: Subscription, has_tokens: bool) -> (r: (Stage, bool))
    ensures
        r.0 == after_tokens_stage(subscription, has_tokens),
        r.1 == (has_tokens && subscription.limits_requests),
{
    let (budget, counts) = after_wait(subscription, has_tokens);
    (lead(budget, Some(subscription)), counts)
}

/// After the bonus servers.
pub open spec fn after_bonus_stage(check: SubCheck, answered: bool) -> Stage {
    if answered {
        Stage::Answered
    } else {
        match check {
            SubCheck::Bonus { servers, fallback: Some(subscription) } => if servers > 0 {
                Stage::Tokens(subscription)
            } else {
                Stage::Servers(Some(subscription))
            },
            SubCheck::Bonus { fallback: None, .. } => Stage::Servers(None),
            SubCheck::Allowed(subscription) => Stage::Servers(Some(subscription)),
            SubCheck::Blocked => Stage::Servers(None),
        }
    }
}

/// Goes on after the bonus servers: the subscription behind them is enforced now.
pub fn after_bonus_servers(check: SubCheck, answered: bool) -> (r: Stage)
    ensures
        r == after_bonus_stage(check, answered),
{
    if answered {
        return Stage::Answered;
    }
    lead(after_bonus(check), charged(check))
}

/// Goes on after a refusal by the servers of the group.
pub fn after_servers(refusal: Refusal) -> (r: Stage)
    ensures
        r == (if refusal.yields() {
            Stage::Fallback(refusal)
        } else {
            Stage::Refused(refusal)
        }),
{
    if refusal.yields_to_fallback() {
        Stage::Fallback(refusal)
    } else {
        Stage::Refused(refusal)
    }
}

/// Goes on after the fallback endpoints.
pub fn after_fallback(refusal: Refusal, answered: bool) -> (r: Stage)
    ensures
        r == (if answered {
            Stage::Answered
        } else {
            Stage::Refused(refusal)
        }),
{
    if answered {
        Stage::Answered
    } else {
        Stage::Refused(refusal)
    }
}

/// A sub-key without budget reaches no server of the group: a billed request of it comes to
/// one only where a subscription has tokens left, or bonus servers were there for it.
pub proof fn law_no_budget_no_server(
    key_id: u128,
    check: SubCheck,
    subscription: Subscription,
    has_tokens: bool,
)
    ensures
        after_priority_stage(false, true, Some(key_id)) == Stage::Subscriptions(key_id),
        !(after_subscriptions_stage(check) is Servers),
        after_subscriptions_stage(check) is Bonus <==> check is Bonus,
        after_tokens_stage(subscription, has_tokens) is Servers <==> has_tokens,
        check == SubCheck::Blocked ==> after_subscriptions_stage(check) == Stage::Fallback(
            Refusal::SubscriptionExceeded,
        ),
{
}

/// The subscription behind bonus servers is enforced before the servers of the group are
/// tried.
pub proof fn law_bonus_does_not_spare_the_subscription(servers: usize, subscription: Subscription)
    requires
        servers > 0,
    ensures
        after_bonus_stage(
            SubCheck::Bonus { servers, fallback: Some(subscription) },
            false,
        ) == Stage::Tokens(subscription),
{
}

} // verus!
