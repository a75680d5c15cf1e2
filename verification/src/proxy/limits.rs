//! Time limits, active hours, token counts and upstream addresses.

use vstd::prelude::*;
use vstd::string::*;

use crate::json;
use crate::json::{opt_int, Json, Parsed, Tree};
use crate::text;
use crate::text::trim_end_slashes;
use crate::translate::ClientProtocol;

verus! {

/// A time limit that counts: a non-positive one is treated as unset.
pub open spec fn set_limit(ms: Option<i32>) -> Option<i32> {
    match ms {
        Some(n) => if n > 0 {
            Some(n)
        } else {
            None
        },
        None => None,
    }
}

fn positive(ms: Option<i32>) -> (r: Option<i32>)
    ensures
        r == set_limit(ms),
{
    match ms {
        Some(n) => if n > 0 {
            Some(n)
        } else {
            None
        },
        None => None,
    }
}

/// Resolves the non-streaming timeout for one upstream: the entity's own setting when it has
/// one, otherwise the global default.
///
/// The global default exists so that "nobody configured this" does not mean "hold a stalled
/// request for the client's full budget". A non-positive value at either level is treated as
/// unset rather than as an instant timeout.
pub fn effective_non_stream_timeout_ms(
    per_entity_ms: Option<i32>,
    global_default_ms: Option<i32>,
) -> (r: Option<i32>)
    ensures
        r == (if set_limit(per_entity_ms) is Some {
            set_limit(per_entity_ms)
        } else {
            set_limit(global_default_ms)
        }),
{
    match positive(per_entity_ms) {
        Some(ms) => Some(ms),
        None => positive(global_default_ms),
    }
}

/// What is left of a time limit.
pub open spec fn time_left(configured_ms: Option<i32>, elapsed_ms: u64) -> Option<u64> {
    match set_limit(configured_ms) {
        Some(ms) => Some(
            if elapsed_ms <= ms {
                (ms - elapsed_ms) as u64
            } else {
                0
            },
        ),
        None => None,
    }
}

/// Time left in a non-streaming timeout budget, in milliseconds.
///
/// `None` means no timeout applies. `Some(0)` is meaningfully different: the budget is spent
/// and the caller should fail over now.
pub fn remaining_timeout_ms(configured_ms: Option<i32>, elapsed_ms: u64) -> (r: Option<u64>)
    ensures
        r == time_left(configured_ms, elapsed_ms),
{
    match positive(configured_ms) {
        Some(ms) => {
            let budget: u64 = ms as u64;
            if elapsed_ms <= budget {
                Some(budget - elapsed_ms)
            } else {
                Some(0)
            }
        },
        None => None,
    }
}

/// The settings as they are read: from the cache, else from the database, else the default.
pub open spec fn setting_of<T>(cached: Option<T>, stored: Option<T>, default: T) -> T {
    match cached {
        Some(v) => v,
        None => match stored {
            Some(v) => v,
            None => default,
        },
    }
}

/// Whether user endpoints are in use; they are unless the settings say otherwise.
pub fn user_endpoints_feature_enabled(cached: Option<bool>, stored: Option<bool>) -> (r: bool)
    ensures
        r == setting_of(cached, stored, true),
{
    match cached {
        Some(v) => v,
        None => match stored {
            Some(v) => v,
            None => true,
        },
    }
}

/// Whether the real request body is stored in the logs (an empty object is stored instead);
/// it is not unless the settings say so.
pub fn log_request_body_enabled(cached: Option<bool>, stored: Option<bool>) -> (r: bool)
    ensures
        r == setting_of(cached, stored, false),
{
    match cached {
        Some(v) => v,
        None => match stored {
            Some(v) => v,
            None => false,
        },
    }
}

/// The timeout for non-streaming requests before settings exist, in milliseconds.
pub const SEEDED_NON_STREAM_TIMEOUT_MS: i32 = 600_000;

/// Global fallback non-streaming timeout. `None` means unbounded: an administrator cleared
/// it. Where there are no settings yet, the seeded value stands, rather than silently going
/// unbounded.
pub fn default_non_stream_timeout_ms(
    cached: Option<Option<i32>>,
    stored: Option<Option<i32>>,
) -> (r: Option<i32>)
    ensures
        r == setting_of(cached, stored, Some(SEEDED_NON_STREAM_TIMEOUT_MS)),
{
    match cached {
        Some(v) => v,
        None => match stored {
            Some(v) => v,
            None => Some(SEEDED_NON_STREAM_TIMEOUT_MS),
        },
    }
}

/// Token counts of a non-streaming response.
#[derive(Debug, Clone, Copy, PartialEq, Eq, Structural)]
pub struct UsageTokens {
    pub input_tokens: i32,
    pub output_tokens: i32,
    pub cache_creation_tokens: Option<i32>,
    pub cache_read_tokens: Option<i32>,
}

/// The low 32 bits of a count, where there is one.
pub open spec fn low_32(n: Option<i64>) -> Option<i32> {
    match n {
        Some(n) => Some(n as i32),
        None => None,
    }
}

/// The token counts of a response. Both counts of input and output have to be there: a
/// half-known request cannot be billed.
pub open spec fn usage_tokens(doc: Tree) -> Option<UsageTokens> {
    let usage = doc.get("usage"@);
    match (
        low_32(json::int_in(usage, "input_tokens"@)),
        low_32(json::int_in(usage, "output_tokens"@)),
    ) {
        (Some(input_tokens), Some(output_tokens)) => Some(
            UsageTokens {
                input_tokens,
                output_tokens,
                cache_creation_tokens: low_32(json::int_in(usage, "cache_creation_input_tokens"@)),
                cache_read_tokens: low_32(json::int_in(usage, "cache_read_input_tokens"@)),
            },
        ),
        _ => None,
    }
}

fn usage_field(usage: Option<&Json>, key: &str) -> (r: Option<i32>)
    ensures
        r == low_32(json::int_in(json::view_opt(usage), key@)),
{
    match opt_int(usage, key) {
        Some(n) => Some(#[verifier::truncate] (n as i32)),
        None => None,
    }
}

/// The token counts of a response document.
pub fn usage_tokens_in(doc: &Json) -> (r: Option<UsageTokens>)
    ensures
        r == usage_tokens(doc@),
{
    let usage = doc.get("usage");
    match (usage_field(usage, "input_tokens"), usage_field(usage, "output_tokens")) {
        (Some(input_tokens), Some(output_tokens)) => Some(
            UsageTokens {
                input_tokens,
                output_tokens,
                cache_creation_tokens: usage_field(usage, "cache_creation_input_tokens"),
                cache_read_tokens: usage_field(usage, "cache_read_input_tokens"),
            },
        ),
        _ => None,
    }
}

/// Reads the `usage` object out of a non-streaming response body, which is always
/// Anthropic-shaped here.
///
/// Returns `None` unless both input and output counts are present: writing a partial row
/// would understate cost.
pub fn extract_usage_tokens(body: &[u8]) -> (r: Option<UsageTokens>)
    ensures
        r == (match json::parsed(body@) {
            Parsed::Doc(doc) => usage_tokens(doc),
            Parsed::Malformed(_) => None,
        }),
{
    match Json::from_slice(body) {
        Ok(doc) => usage_tokens_in(&doc),
        Err(_) => None,
    }
}

/// The address that a request is sent to.
pub open spec fn upstream_url(
    protocol: ClientProtocol,
    base_url: Seq<char>,
    path: Seq<char>,
    query: Option<Seq<char>>,
) -> Seq<char> {
    let base = text::without_end_slashes(base_url);
    if protocol != ClientProtocol::Anthropic {
        base + "/v1/messages"@
    } else {
        match query {
            Some(query) => base + path + "?"@ + query,
            None => base + path,
        }
    }
}

/// The upstream address for a given client protocol.
///
/// Configured upstreams implement only Anthropic Messages, so a translated request is always
/// sent to `/v1/messages` regardless of the path the client used, and without the client's
/// query, which is meaningless there. An Anthropic request keeps its own path, which
/// preserves pass-through for `/v1/messages/count_tokens` and the like.
pub fn upstream_url_for(
    protocol: ClientProtocol,
    base_url: &str,
    path: &str,
    query: Option<&str>,
) -> (r: String)
    ensures
        r@ == upstream_url(protocol, base_url@, path@, json::str_opt(query)),
{
    let mut out = trim_end_slashes(base_url).to_owned();
    if protocol.needs_translation() {
        out.append("/v1/messages");
        return out;
    }
    out.append(path);
    if let Some(query) = query {
        out.append("?");
        out.append(query);
    }
    out
}

/// A time limit is spent once: what is left of it after some time, and that time, come to the
/// limit, so that a server that stalls both before its headers and in its body does not get
/// it twice. Once it is spent nothing is left.
pub proof fn law_time_limit_is_spent_once(configured_ms: Option<i32>, elapsed_ms: u64)
    ensures
        set_limit(configured_ms) matches Some(ms) ==> {
            let left = time_left(configured_ms, elapsed_ms);
            &&& left is Some
            &&& elapsed_ms <= ms ==> elapsed_ms + left->0 == ms
            &&& elapsed_ms >= ms ==> left == Some(0u64)
        },
        set_limit(configured_ms) is None ==> time_left(configured_ms, elapsed_ms) is None,
{
}

} // verus!
