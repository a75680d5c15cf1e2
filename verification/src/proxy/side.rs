//! The servers beside those of the group: the client's own endpoints, which are tried before
//! or after all others, and bonus servers.

use vstd::prelude::*;
use vstd::string::*;

use crate::json::Json;
use crate::proxy::failover::SendReply;
use crate::proxy::limits;
use crate::proxy::limits::{remaining_timeout_ms, UsageTokens};
use crate::proxy::rows;
use crate::proxy::rows::{non_stream_row, LatencyRow, LatencySource};
use crate::proxy::seam;
use crate::proxy::seam::is_success;
use crate::text;
use crate::text::{concat2, str_eq, trim_end_slashes};

verus! {

/// For how many seconds the headers of a client's own endpoint are waited for, so that one
/// that hangs does not stall all that come after it.
pub const HEADER_TIMEOUT_SECS: u64 = 30;

/// An endpoint of the client's own.
#[derive(Debug)]
pub struct UserEndpoint {
    pub id: u128,
    pub name: String,
    pub base_url: String,
    pub api_key: String,
    /// When it is tried: `priority` before the servers of the group, `fallback` after them.
    pub priority_mode: String,
    pub model_mappings: Json,
    pub custom_headers: Option<Json>,
    pub non_stream_timeout_ms: Option<i32>,
    /// It takes the model of the request.
    pub accepts_model: bool,
}

/// The endpoint is tried in this mode.
pub open spec fn in_mode(endpoint: UserEndpoint, mode: Seq<char>) -> bool {
    endpoint.priority_mode@ == mode && endpoint.accepts_model
}

/// The positions of the endpoints that are tried in a mode, in their order.
pub open spec fn positions(endpoints: Seq<UserEndpoint>, mode: Seq<char>) -> Seq<int>
    decreases endpoints.len(),
{
    if endpoints.len() == 0 {
        Seq::empty()
    } else if in_mode(endpoints.last(), mode) {
        positions(endpoints.drop_last(), mode).push(endpoints.len() - 1)
    } else {
        positions(endpoints.drop_last(), mode)
    }
}

/// The numbers.
pub open spec fn as_ints(positions: Seq<usize>) -> Seq<int> {
    positions.map_values(|i: usize| i as int)
}

/// The positions of the endpoints that are tried in a mode, in their order.
pub fn endpoints_in_turn(endpoints: &Vec<UserEndpoint>, mode: &str) -> (r: Vec<usize>)
    ensures
        as_ints(r@) == positions(endpoints@, mode@),
{
    let mut out: Vec<usize> = Vec::new();
    assert(as_ints(out@) =~= positions(endpoints@.take(0), mode@));
    for i in 0..endpoints.len()
        invariant
            as_ints(out@) == positions(endpoints@.take(i as int), mode@),
    {
        let ghost more = endpoints@.take(i + 1);
        assert(more.drop_last() =~= endpoints@.take(i as int));
        assert(more.last() == endpoints@[i as int]);
        if str_eq(endpoints[i].priority_mode.as_str(), mode) && endpoints[i].accepts_model {
            let ghost before = out@;
            out.push(i);
            assert(as_ints(out@) =~= as_ints(before).push(i as int));
        }
    }
    assert(endpoints@.take(endpoints@.len() as int) =~= endpoints@);
    out
}

/// The address of a bonus server.
pub fn bonus_url(base_url: &str) -> (r: String)
    ensures
        r@ == text::without_end_slashes(base_url@) + "/v1/messages"@,
{
    concat2(trim_end_slashes(base_url), "/v1/messages")
}

/// The time budget for the headers of a bonus server: none where the client asked to stream.
pub fn bonus_budget_ms(wants_stream: bool, timeout_ms: Option<i32>) -> (r: Option<u64>)
    ensures
        r == (if wants_stream {
            None
        } else {
            limits::time_left(timeout_ms, 0)
        }),
{
    if wants_stream {
        None
    } else {
        remaining_timeout_ms(timeout_ms, 0)
    }
}

/// The next step with such a server.
#[derive(Debug, Clone, Copy, PartialEq, Eq, Structural)]
pub enum SideStep {
    /// Try the next one; a latency row may be written.
    TryNext { row: Option<LatencyRow> },
    /// Answer with the stream, and bill it on the way.
    Stream,
    /// Read the body.
    ReadBody { budget_ms: Option<u64> },
}

/// The step after a request to such a server. Only a success is answered with. A bonus
/// server that is late is recorded; a client's own endpoint is recorded only where its body
/// is late.
pub open spec fn side_sent(
    source: LatencySource,
    reply: SendReply,
    timeout_ms: Option<i32>,
    elapsed_ms: u64,
) -> SideStep {
    match reply {
        SendReply::Failed => SideStep::TryNext { row: None },
        SendReply::TimedOut => SideStep::TryNext {
            row: if source == LatencySource::Bonus {
                Some(rows::non_stream(None, true, source))
            } else {
                None
            },
        },
        SendReply::Headers { status, event_stream } => if !seam::succeeds(status) {
            SideStep::TryNext { row: None }
        } else if event_stream {
            SideStep::Stream
        } else {
            SideStep::ReadBody { budget_ms: limits::time_left(timeout_ms, elapsed_ms) }
        },
    }
}

/// Decides after a request to such a server.
pub fn after_side_send(
    source: LatencySource,
    reply: SendReply,
    timeout_ms: Option<i32>,
    elapsed_ms: u64,
) -> (r: SideStep)
    ensures
        r == side_sent(source, reply, timeout_ms, elapsed_ms),
{
    match reply {
        SendReply::Failed => SideStep::TryNext { row: None },
        SendReply::TimedOut => {
            if source == LatencySource::Bonus {
                SideStep::TryNext { row: Some(non_stream_row(None, true, source)) }
            } else {
                SideStep::TryNext { row: None }
            }
        },
        SendReply::Headers { status, event_stream } => {
            if !is_success(status) {
                SideStep::TryNext { row: None }
            } else if event_stream {
                SideStep::Stream
            } else {
                SideStep::ReadBody { budget_ms: remaining_timeout_ms(timeout_ms, elapsed_ms) }
            }
        },
    }
}

/// The row that is written where the body of such a server is late.
pub fn late_body_row(source: LatencySource) -> (r: LatencyRow)
    ensures
        r == rows::non_stream(None, true, source),
{
    non_stream_row(None, true, source)
}

/// What is billed of a body that a client's own endpoint or a bonus server gave.
pub fn side_usage(billing: bool, body: &[u8]) -> (r: Option<UsageTokens>)
    ensures
        r == (match crate::json::parsed(body@) {
            crate::json::Parsed::Doc(doc) => if billing {
                limits::usage_tokens(doc)
            } else {
                None
            },
            crate::json::Parsed::Malformed(_) => None,
        }),
{
    if billing {
        limits::extract_usage_tokens(body)
    } else {
        None
    }
}

/// The endpoints of a mode are tried in the order in which they are stored, each once, and
/// none of another mode or that does not take the model.
pub proof fn law_endpoints_keep_their_order(endpoints: Seq<UserEndpoint>, mode: Seq<char>)
    ensures
        forall|i: int|
            #![trigger positions(endpoints, mode)[i]]
            0 <= i < positions(endpoints, mode).len() ==> {
                let at = positions(endpoints, mode)[i];
                0 <= at < endpoints.len() && in_mode(endpoints[at], mode)
            },
        forall|i: int, j: int|
            0 <= i < j < positions(endpoints, mode).len() ==> #[trigger] positions(
                endpoints,
                mode,
            )[i] < #[trigger] positions(endpoints, mode)[j],
        forall|at: int|
            0 <= at < endpoints.len() && in_mode(#[trigger] endpoints[at], mode) ==> positions(
                endpoints,
                mode,
            ).contains(at),
    decreases endpoints.len(),
{
    if endpoints.len() > 0 {
        let rest = endpoints.drop_last();
        law_endpoints_keep_their_order(rest, mode);
        assert forall|at: int|
            0 <= at < endpoints.len() && in_mode(#[trigger] endpoints[at], mode) implies positions(
            endpoints,
            mode,
        ).contains(at) by {
            if at < rest.len() {
                assert(rest[at] == endpoints[at]);
                let i = choose|i: int|
                    0 <= i < positions(rest, mode).len() && positions(rest, mode)[i] == at;
                assert(positions(endpoints, mode)[i] == at);
            } else {
                assert(positions(endpoints, mode)[positions(rest, mode).len() as int] == at);
            }
        }
    }
}

} // verus!
