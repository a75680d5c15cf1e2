//! Subscriptions, token counts and prices: who pays for a request, and what.

use vstd::prelude::*;

use crate::json;
use crate::json::{Json, Object, Parsed, Tree};
use crate::proxy::body;
use crate::proxy::body::estimate_input_tokens;
use crate::proxy::refusal::Refusal;
use crate::text;
use crate::text::{concat2, str_eq, trim_end_slashes};

verus! {

/// The subscription that a request is charged to.
#[derive(Debug, Clone, Copy, PartialEq, Eq, Structural)]
pub struct Subscription {
    pub id: u128,
    /// It limits requests per minute.
    pub limits_requests: bool,
    /// It limits tokens per minute.
    pub limits_tokens: bool,
}

/// What the check of the subscriptions of a sub-key came to.
#[derive(Debug, Clone, Copy, PartialEq, Eq, Structural)]
pub enum SubCheck {
    /// A subscription has budget left.
    Allowed(Subscription),
    /// None has.
    Blocked,
    /// Bonus servers are tried first; a subscription may stand behind them.
    Bonus { servers: usize, fallback: Option<Subscription> },
}

/// How the charging of a request goes on.
#[derive(Debug, Clone, Copy, PartialEq, Eq, Structural)]
pub enum Budget {
    /// Wait until the subscription has tokens per minute left.
    WaitForTokens(Subscription),
    /// Refuse the request.
    Refuse(Refusal),
    /// Go on to the servers.
    Proceed,
}

/// The sub-key whose subscriptions are checked: that of a request that is billed.
pub fn key_to_charge(billing: bool, group_key_id: Option<u128>) -> (r: Option<u128>)
    ensures
        r == (if billing {
            group_key_id
        } else {
            None
        }),
{
    if billing {
        group_key_id
    } else {
        None
    }
}

/// The subscription that pays for the request unless a bonus server answers it.
pub fn charged(check: SubCheck) -> (r: Option<Subscription>)
    ensures
        r == (match check {
            SubCheck::Allowed(subscription) => Some(subscription),
            SubCheck::Blocked => None,
            SubCheck::Bonus { fallback, .. } => fallback,
        }),
{
    match check {
        SubCheck::Allowed(subscription) => Some(subscription),
        SubCheck::Blocked => None,
        SubCheck::Bonus { fallback, .. } => fallback,
    }
}

/// Goes on after the check of the subscriptions. The limits of a subscription behind bonus
/// servers stay pending until all of these have failed.
pub fn after_check(check: SubCheck) -> (r: Budget)
    ensures
        r == (match check {
            SubCheck::Allowed(subscription) => Budget::WaitForTokens(subscription),
            SubCheck::Blocked => Budget::Refuse(Refusal::SubscriptionExceeded),
            SubCheck::Bonus { .. } => Budget::Proceed,
        }),
{
    match check {
        SubCheck::Allowed(subscription) => Budget::WaitForTokens(subscription),
        SubCheck::Blocked => Budget::Refuse(Refusal::SubscriptionExceeded),
        SubCheck::Bonus { .. } => Budget::Proceed,
    }
}

/// Goes on after every bonus server has failed: the subscription behind them is enforced
/// before the servers of the group are tried.
pub fn after_bonus(check: SubCheck) -> (r: Budget)
    ensures
        r == (match check {
            SubCheck::Bonus { servers, fallback: Some(subscription) } => if servers > 0 {
                Budget::WaitForTokens(subscription)
            } else {
                Budget::Proceed
            },
            _ => Budget::Proceed,
        }),
{
    match check {
        SubCheck::Bonus { servers, fallback: Some(subscription) } => if servers > 0 {
            Budget::WaitForTokens(subscription)
        } else {
            Budget::Proceed
        },
        _ => Budget::Proceed,
    }
}

/// Goes on after the wait for tokens per minute. A request that goes on counts on the
/// requests per minute, before it is sent, where these are limited.
pub fn after_wait(subscription: Subscription, has_tokens: bool) -> (r: (Budget, bool))
    ensures
        r == (if has_tokens {
            (Budget::Proceed, subscription.limits_requests)
        } else {
            (Budget::Refuse(Refusal::TokensPerMinuteExceeded), false)
        }),
{
    if has_tokens {
        (Budget::Proceed, subscription.limits_requests)
    } else {
        (Budget::Refuse(Refusal::TokensPerMinuteExceeded), false)
    }
}

/// Where the price of a request comes from.
#[derive(Debug, Clone, Copy, PartialEq, Eq, Structural)]
pub enum Price {
    /// It has none.
    Unpriced,
    /// From the price table of the model; where the model is not in it, it has none.
    Table,
    /// From the price table of the model; where the model is not in it, it is zero.
    TableOrZero,
    /// From the subscription, a flat price for each request.
    Flat,
}

/// What is known of the subscription that a request is charged to.
#[derive(Debug, Clone, Copy)]
pub enum Charge<'a> {
    /// There is none.
    Nobody,
    /// It could not be looked up.
    Unknown,
    /// One of this type.
    Subscription(&'a str),
}

/// Where the price of a request comes from, and whether the counters of the subscription are
/// updated. A bonus subscription is priced for the record only, which the stream of an answer
/// alone can be charged to.
pub open spec fn pricing(streamed: bool, has_model: bool, charge: Charge) -> (Price, bool) {
    if !has_model {
        (Price::Unpriced, false)
    } else {
        match charge {
            Charge::Nobody => (Price::Table, false),
            Charge::Unknown => (Price::Unpriced, false),
            Charge::Subscription(kind) => if streamed && kind@ == "bonus"@ {
                (Price::Table, false)
            } else if kind@ == "pay_per_request"@ {
                (Price::Flat, true)
            } else {
                (Price::TableOrZero, true)
            },
        }
    }
}

/// Where the price of a request comes from, and whether the counters of the subscription are
/// updated.
pub fn price_of(streamed: bool, has_model: bool, charge: Charge) -> (r: (Price, bool))
    ensures
        r == pricing(streamed, has_model, charge),
{
    if !has_model {
        return (Price::Unpriced, false);
    }
    match charge {
        Charge::Nobody => (Price::Table, false),
        Charge::Unknown => (Price::Unpriced, false),
        Charge::Subscription(kind) => {
            if streamed && str_eq(kind, "bonus") {
                (Price::Table, false)
            } else if str_eq(kind, "pay_per_request") {
                (Price::Flat, true)
            } else {
                (Price::TableOrZero, true)
            }
        },
    }
}

/// The flat price of a model, as the subscription stores it.
pub fn flat_price<'a>(costs: &'a Json, model: &str) -> (r: Option<&'a Json>)
    ensures
        json::view_opt(r) == costs@.get(model@),
{
    costs.get(model)
}

/// Counts the tokens of a stream on its way to the client.
#[derive(Debug, Clone, Copy, PartialEq, Eq, Structural)]
pub enum UsageTracking {
    /// Chunks are handed on and parsed.
    Parsing,
    /// Nothing more comes.
    Done,
}

/// What the source of a stream gives when it is asked.
pub enum Source {
    Chunk(Seq<u8>),
    Error,
    End,
}

/// What the client of a stream is given when it asks.
pub enum Given {
    Chunk(Seq<u8>),
    Error,
    End,
}

/// Where the tracking of a stream stands after the client has asked and the source would
/// give this; what the client is given; and whether what was parsed is billed. Once the
/// stream is over, the source is not asked.
pub open spec fn track(t: UsageTracking, source: Source) -> (UsageTracking, Given, bool) {
    match t {
        UsageTracking::Done => (UsageTracking::Done, Given::End, false),
        UsageTracking::Parsing => match source {
            Source::Chunk(chunk) => (UsageTracking::Parsing, Given::Chunk(chunk), false),
            Source::Error => (UsageTracking::Done, Given::Error, false),
            Source::End => (UsageTracking::Done, Given::End, true),
        },
    }
}

impl UsageTracking {
    /// Whether the source is asked at all. A chunk that it gives is handed on as it is, and
    /// the tracking goes on.
    pub fn is_open(self) -> (r: bool)
        ensures
            r == (self == UsageTracking::Parsing),
            !r ==> forall|source: Source|
                (#[trigger] track(self, source)) == (UsageTracking::Done, Given::End, false),
            r ==> forall|chunk: Seq<u8>|
                (#[trigger] track(self, Source::Chunk(chunk))) == (self, Given::Chunk(chunk), false),
    {
        match self {
            UsageTracking::Parsing => true,
            UsageTracking::Done => false,
        }
    }

    /// The source broke: the error is handed on, and nothing is billed.
    pub fn on_error(self) -> (r: UsageTracking)
        ensures
            r == UsageTracking::Done,
            r == track(self, Source::Error).0,
    {
        UsageTracking::Done
    }

    /// The source ended: what was parsed is billed, once.
    pub fn on_end(self) -> (r: (UsageTracking, bool))
        ensures
            r.0 == UsageTracking::Done,
            r.1 == (self == UsageTracking::Parsing),
            r.0 == track(self, Source::End).0,
            r.1 == track(self, Source::End).2,
    {
        match self {
            UsageTracking::Parsing => (UsageTracking::Done, true),
            UsageTracking::Done => (UsageTracking::Done, false),
        }
    }
}

/// The stream asked as often as its source would be: where the tracking stands then, what
/// the client was given, and how often what was parsed was billed.
pub open spec fn track_all(sources: Seq<Source>) -> (UsageTracking, Seq<Given>, nat)
    decreases sources.len(),
{
    if sources.len() == 0 {
        (UsageTracking::Parsing, Seq::empty(), 0)
    } else {
        let before = track_all(sources.drop_last());
        let now = track(before.0, sources.last());
        (
            now.0,
            before.1.push(now.1),
            if now.2 {
                before.2 + 1
            } else {
                before.2
            },
        )
    }
}

/// The first thing that the source gives beside chunks comes at `n`, or never where `n` is
/// their number.
pub open spec fn chunks_until(sources: Seq<Source>, n: int) -> bool {
    &&& 0 <= n <= sources.len()
    &&& forall|i: int| 0 <= i < n ==> (#[trigger] sources[i]) is Chunk
    &&& n < sources.len() ==> !(sources[n] is Chunk)
}

/// Usage is billed at most once, only where the source ended, and never after an error. The
/// client is given the chunks of the source, unchanged and in order, then its error if it
/// broke, and after that nothing.
pub proof fn law_usage_is_billed_once(sources: Seq<Source>, n: int)
    requires
        chunks_until(sources, n),
    ensures
        ({
            let (tracking, given, billed) = track_all(sources);
            &&& billed == (if n < sources.len() && sources[n] is End {
                1nat
            } else {
                0
            })
            &&& tracking == (if n < sources.len() {
                UsageTracking::Done
            } else {
                UsageTracking::Parsing
            })
            &&& given.len() == sources.len()
            &&& forall|i: int|
                0 <= i < given.len() ==> (#[trigger] given[i]) == (if i < n {
                    Given::Chunk(sources[i]->Chunk_0)
                } else if i == n && sources[n] is Error {
                    Given::Error
                } else {
                    Given::End
                })
        }),
    decreases sources.len(),
{
    if sources.len() > 0 {
        let rest = sources.drop_last();
        let m = if n < sources.len() - 1 {
            n
        } else {
            rest.len() as int
        };
        assert forall|i: int| 0 <= i < m implies (#[trigger] rest[i]) is Chunk by {
            assert(rest[i] == sources[i]);
        }
        law_usage_is_billed_once(rest, m);
        let before = track_all(rest);
        let given = track_all(sources).1;
        assert(sources.last() == sources[sources.len() - 1]);
        assert forall|i: int| 0 <= i < given.len() implies (#[trigger] given[i]) == (if i < n {
            Given::Chunk(sources[i]->Chunk_0)
        } else if i == n && sources[n] is Error {
            Given::Error
        } else {
            Given::End
        }) by {
            if i < rest.len() {
                assert(given[i] == before.1[i]);
                assert(rest[i] == sources[i]);
            }
        }
    }
}

/// How tokens are counted.
#[derive(Debug)]
pub enum CountPlan {
    /// By a local estimate.
    Estimate,
    /// By this server, with this key; where it fails, by a local estimate.
    Ask { url: String, api_key: String },
    /// By the servers of the group.
    Group,
}

/// The settings on how tokens are counted.
#[derive(Debug)]
pub struct CountSettings {
    pub always_estimate: bool,
    pub base_url: Option<String>,
    pub api_key: Option<String>,
}

/// Decides how tokens are counted. The global settings come before the group.
pub fn count_plan(settings: Option<CountSettings>) -> (r: CountPlan)
    ensures
        match settings {
            None => r is Group,
            Some(s) => if s.always_estimate {
                r is Estimate
            } else {
                match (s.base_url, s.api_key) {
                    (Some(base), Some(key)) => match r {
                        CountPlan::Ask { url, api_key } => api_key == key && url@
                            == text::without_end_slashes(base@) + "/v1/messages/count_tokens"@,
                        _ => false,
                    },
                    _ => r is Group,
                }
            },
        },
{
    match settings {
        None => CountPlan::Group,
        Some(s) => {
            if s.always_estimate {
                return CountPlan::Estimate;
            }
            match (s.base_url, s.api_key) {
                (Some(base), Some(api_key)) => CountPlan::Ask {
                    url: concat2(trim_end_slashes(base.as_str()), "/v1/messages/count_tokens"),
                    api_key,
                },
                _ => CountPlan::Group,
            }
        },
    }
}

/// The local estimate: none of a body that is no JSON.
pub open spec fn estimate_of(body: Seq<u8>) -> nat {
    match json::parsed(body) {
        Parsed::Doc(doc) => body::estimated_tokens(doc),
        Parsed::Malformed(_) => 0,
    }
}

/// The answer to a request to count tokens, by a local estimate.
pub fn estimate_answer(body: &[u8]) -> (r: Json)
    ensures
        r@ == Tree::Obj(map!["input_tokens"@ => Tree::Int(estimate_of(body@) as int)]),
{
    let tokens: usize = match estimate_input_tokens(body) {
        Some(tokens) => tokens,
        None => 0,
    };
    let out = Object::new().with("input_tokens", Json::from_u64(tokens as u64));
    assert(out@ =~= map!["input_tokens"@ => Tree::Int(estimate_of(body@) as int)]);
    Json::Object(out)
}

/// The counters of a subscription are updated for exactly the requests that have a model and
/// are charged to a known subscription, but for streams charged to a bonus one.
pub proof fn law_who_is_charged(streamed: bool, has_model: bool, charge: Charge)
    ensures
        pricing(streamed, has_model, charge).1 <==> has_model && (charge matches
            Charge::Subscription(kind) && !(streamed && kind@ == "bonus"@)),
        pricing(streamed, has_model, charge).0 == Price::Flat ==> pricing(
            streamed,
            has_model,
            charge,
        ).1,
{
}

} // verus!
