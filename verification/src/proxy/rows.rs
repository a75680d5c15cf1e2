//! What is recorded of a request: latency rows, log rows, uptime rows.

use vstd::prelude::*;

use crate::circuit_breaker::TripRule;

verus! {

/// Which waterfall a latency row came from. The bonus and user-endpoint paths both write a
/// nil server, so this is what distinguishes them on the dashboard.
#[derive(Debug, Clone, Copy, PartialEq, Eq, Structural)]
pub enum LatencySource {
    GroupServer,
    Bonus,
    UserEndpoint,
}

impl LatencySource {
    /// The name of this source.
    pub open spec fn name(self) -> Seq<char> {
        match self {
            LatencySource::GroupServer => "group_server"@,
            LatencySource::Bonus => "bonus"@,
            LatencySource::UserEndpoint => "user_endpoint"@,
        }
    }

    /// The name of this source, which the latency report maps to display names.
    pub fn as_str(self) -> (r: &'static str)
        ensures
            r@ == self.name(),
    {
        match self {
            LatencySource::GroupServer => "group_server",
            LatencySource::Bonus => "bonus",
            LatencySource::UserEndpoint => "user_endpoint",
        }
    }
}

/// How long a request took, or that it took too long.
#[derive(Debug, Clone, Copy, PartialEq, Eq, Structural)]
pub struct LatencyRow {
    /// Time to the first chunk of a stream.
    pub ttft_ms: Option<i32>,
    /// The full time of an answer that is no stream.
    pub total_ms: Option<i32>,
    pub timed_out: bool,
    pub is_streaming: bool,
    pub source: LatencySource,
}

/// The row of a streamed answer.
pub open spec fn ttft(ttft_ms: Option<i32>, timed_out: bool) -> LatencyRow {
    LatencyRow {
        ttft_ms,
        total_ms: None,
        timed_out,
        is_streaming: true,
        source: LatencySource::GroupServer,
    }
}

/// The row of an answer that is no stream.
pub open spec fn non_stream(
    total_ms: Option<i32>,
    timed_out: bool,
    source: LatencySource,
) -> LatencyRow {
    LatencyRow { ttft_ms: None, total_ms, timed_out, is_streaming: false, source }
}

/// The row of a streamed answer: `ttft_ms` is the time to its first chunk.
pub fn ttft_row(ttft_ms: Option<i32>, timed_out: bool) -> (r: LatencyRow)
    ensures
        r == ttft(ttft_ms, timed_out),
{
    LatencyRow {
        ttft_ms,
        total_ms: None,
        timed_out,
        is_streaming: true,
        source: LatencySource::GroupServer,
    }
}

/// The row of an answer that is no stream: `total_ms` is the full end-to-end upstream time,
/// not a time-to-first-token measurement.
pub fn non_stream_row(total_ms: Option<i32>, timed_out: bool, source: LatencySource) -> (r:
    LatencyRow)
    ensures
        r == non_stream(total_ms, timed_out, source),
{
    LatencyRow { ttft_ms: None, total_ms, timed_out, is_streaming: false, source }
}

/// What a log row says of a request.
#[derive(Debug, Clone, Copy, PartialEq, Eq, Structural)]
pub enum LogKind {
    /// A later attempt gave the answer.
    FailoverSuccess,
    /// A server gave an error that is passed on.
    UpstreamError,
    /// No server could be reached.
    ConnectionError,
    /// Every server that could be tried failed.
    AllServersExhausted,
}

impl LogKind {
    /// The name of this kind.
    pub open spec fn name(self) -> Seq<char> {
        match self {
            LogKind::FailoverSuccess => "failover_success"@,
            LogKind::UpstreamError => "upstream_error"@,
            LogKind::ConnectionError => "connection_error"@,
            LogKind::AllServersExhausted => "all_servers_exhausted"@,
        }
    }

    /// The name of this kind, as a log row holds it.
    pub fn as_str(self) -> (r: &'static str)
        ensures
            r@ == self.name(),
    {
        match self {
            LogKind::FailoverSuccess => "failover_success",
            LogKind::UpstreamError => "upstream_error",
            LogKind::ConnectionError => "connection_error",
            LogKind::AllServersExhausted => "all_servers_exhausted",
        }
    }
}

/// What is to be done beside answering the client.
#[derive(Debug, Clone, Copy, PartialEq, Eq, Structural)]
pub enum Effect {
    /// Write a latency row.
    Latency(LatencyRow),
    /// Write an uptime row; status 0 stands for an attempt that gave no answer.
    Uptime { status: i16, latency_ms: i32 },
    /// Tell the circuit breaker of an error, and alert if that trips it.
    RecordError(TripRule),
    /// Tell the circuit breaker that the probe succeeded.
    ProbeSuccess,
    /// Give the probe permit back.
    ProbeRelease,
    /// Write a log row, with the attempts so far.
    Log { status: i16, kind: LogKind },
    /// Alert the operators of this status.
    Alert { code: u16 },
    /// Bill the tokens that the answer's body tells of.
    RecordUsage,
}

} // verus!
