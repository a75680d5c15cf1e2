//! Statistics on how long answers take, for each server of a group.

use vstd::prelude::*;
use vstd::string::*;

use crate::json::{Json, Object, Tree};
use crate::text::str_eq;
use crate::translate::chat;

verus! {

/// What is asked for.
#[derive(Debug)]
pub struct TtftStatsParams {
    pub group_id: Option<u128>,
    pub group_key_id: Option<u128>,
    pub period: Option<String>,
    /// Absolute time range, in microseconds since 1970. When both ends are provided, the
    /// period is ignored.
    pub start: Option<i64>,
    pub end: Option<i64>,
}

/// The interval that a period stands for.
pub open spec fn interval(period: Seq<char>) -> Seq<char> {
    if period == "6h"@ {
        "6 hours"@
    } else if period == "24h"@ {
        "24 hours"@
    } else {
        "1 hour"@
    }
}

/// The interval that a period stands for. Only these texts can appear in a query.
pub fn resolve_interval(period: &str) -> (r: &'static str)
    ensures
        r@ == interval(period@),
{
    if str_eq(period, "6h") {
        "6 hours"
    } else if str_eq(period, "24h") {
        "24 hours"
    } else {
        "1 hour"
    }
}

/// The columns of the statistics, and the tables they come from.
pub const AGGREGATE_COLUMNS: &'static str = "SELECT t.server_id, t.source, \
             COALESCE(s.name, CASE t.source \
               WHEN 'bonus' THEN '(bonus server)' \
               WHEN 'user_endpoint' THEN '(user endpoint)' \
               ELSE '(unknown server)' END) as server_name, \
             AVG(t.ttft_ms) FILTER (WHERE t.is_streaming)::float8 as avg_ttft_ms, \
             PERCENTILE_CONT(0.5) WITHIN GROUP (ORDER BY t.ttft_ms) FILTER (WHERE t.is_streaming)::float8 as p50_ttft_ms, \
             PERCENTILE_CONT(0.95) WITHIN GROUP (ORDER BY t.ttft_ms) FILTER (WHERE t.is_streaming)::float8 as p95_ttft_ms, \
             AVG(t.total_ms) FILTER (WHERE NOT t.is_streaming)::float8 as avg_total_ms, \
             PERCENTILE_CONT(0.5) WITHIN GROUP (ORDER BY t.total_ms) FILTER (WHERE NOT t.is_streaming)::float8 as p50_total_ms, \
             PERCENTILE_CONT(0.95) WITHIN GROUP (ORDER BY t.total_ms) FILTER (WHERE NOT t.is_streaming)::float8 as p95_total_ms, \
             COUNT(*) FILTER (WHERE t.timed_out) as timeout_count, \
             COUNT(*) as total_count, \
             COUNT(*) FILTER (WHERE t.is_streaming) as stream_count, \
             COUNT(*) FILTER (WHERE NOT t.is_streaming) as non_stream_count, \
             COUNT(*) FILTER (WHERE NOT t.is_streaming AND t.timed_out) as non_stream_timeout_count \
             FROM ttft_logs t LEFT JOIN servers s ON s.id = t.server_id ";

/// How the statistics are grouped and ordered.
pub const AGGREGATE_GROUPS: &'static str = " GROUP BY t.server_id, t.source, s.name ORDER BY server_name";

/// The columns of the single answers, and the table they come from.
pub const POINT_COLUMNS: &'static str = "SELECT t.server_id, t.source, t.created_at, t.ttft_ms, t.total_ms, t.timed_out, t.is_streaming \
             FROM ttft_logs t ";

/// How the single answers are ordered.
pub const POINT_ORDER: &'static str = " ORDER BY t.created_at";

/// Which answers count: those of a time range, or of the time up to now; of one sub-key, or
/// of all.
pub open spec fn condition(
    has_range: bool,
    period: Option<Seq<char>>,
    has_key: bool,
) -> Seq<char> {
    if has_range {
        "WHERE t.group_id = $1 AND t.created_at >= $2 AND t.created_at < $3"@ + if has_key {
            " AND t.group_key_id = $4"@
        } else {
            Seq::empty()
        }
    } else {
        "WHERE t.group_id = $1 AND t.created_at > now() - interval '"@ + interval(
            match period {
                Some(period) => period,
                None => "1h"@,
            },
        ) + "'"@ + if has_key {
            " AND t.group_key_id = $2"@
        } else {
            Seq::empty()
        }
    }
}

fn write_condition(has_range: bool, period: &Option<String>, has_key: bool) -> (r: String)
    ensures
        r@ == condition(has_range, chat::text_opt(*period), has_key),
{
    if has_range {
        let mut out =
            "WHERE t.group_id = $1 AND t.created_at >= $2 AND t.created_at < $3".to_owned();
        if has_key {
            out.append(" AND t.group_key_id = $4");
        }
        assert(out@ =~= condition(has_range, chat::text_opt(*period), has_key));
        return out;
    }
    let mut out = "WHERE t.group_id = $1 AND t.created_at > now() - interval '".to_owned();
    let length = match period {
        Some(period) => resolve_interval(period.as_str()),
        None => resolve_interval("1h"),
    };
    out.append(length);
    out.append("'");
    if has_key {
        out.append(" AND t.group_key_id = $2");
    }
    assert(out@ =~= condition(has_range, chat::text_opt(*period), has_key));
    out
}

/// The queries that answer a request for statistics.
#[derive(Debug)]
pub struct TtftQueries {
    pub group_id: u128,
    /// The ends of the time range, where they are bound.
    pub range: Option<(i64, i64)>,
    pub group_key_id: Option<u128>,
    pub aggregate: String,
    pub points: String,
}

/// The request gives both ends of a time range.
pub open spec fn range_of(params: TtftStatsParams) -> Option<(i64, i64)> {
    match (params.start, params.end) {
        (Some(start), Some(end)) => Some((start, end)),
        _ => None,
    }
}

/// Plans the queries. An absolute range takes priority over the period. Without a group
/// there is nothing to ask for.
pub fn plan_queries(params: &TtftStatsParams) -> (r: Result<TtftQueries, &'static str>)
    ensures
        match params.group_id {
            None => r is Err && r->Err_0@ == "group_id is required"@,
            Some(group_id) => {
                let queries = r->Ok_0;
                let which = condition(
                    range_of(*params) is Some,
                    chat::text_opt(params.period),
                    params.group_key_id is Some,
                );
                &&& r is Ok
                &&& queries.group_id == group_id
                &&& queries.range == range_of(*params)
                &&& queries.group_key_id == params.group_key_id
                &&& queries.aggregate@ == AGGREGATE_COLUMNS@ + which + AGGREGATE_GROUPS@
                &&& queries.points@ == POINT_COLUMNS@ + which + POINT_ORDER@
            },
        },
{
    let group_id = match params.group_id {
        Some(group_id) => group_id,
        None => {
            return Err("group_id is required");
        },
    };
    let range = match (params.start, params.end) {
        (Some(start), Some(end)) => Some((start, end)),
        _ => None,
    };
    let which = write_condition(range.is_some(), &params.period, params.group_key_id.is_some());
    let mut aggregate = AGGREGATE_COLUMNS.to_owned();
    aggregate.append(which.as_str());
    aggregate.append(AGGREGATE_GROUPS);
    let mut points = POINT_COLUMNS.to_owned();
    points.append(which.as_str());
    points.append(POINT_ORDER);
    Ok(TtftQueries { group_id, range, group_key_id: params.group_key_id, aggregate, points })
}

/// The body of a refusal.
pub fn error_body(message: &str) -> (r: Json)
    ensures
        r@ == Tree::Obj(map!["error"@ => Tree::Str(message@)]),
{
    let out = Object::new().with("error", Json::text(message));
    assert(out@ =~= map!["error"@ => Tree::Str(message@)]);
    Json::Object(out)
}

/// One answer, as the statistics show it.
#[derive(Debug, Clone, Copy, PartialEq, Eq, Structural)]
pub struct TtftDataPointOut {
    /// Microseconds since 1970.
    pub created_at: i64,
    pub ttft_ms: Option<i32>,
    pub total_ms: Option<i32>,
    pub timed_out: bool,
    pub is_streaming: bool,
}

/// One answer, with the server that it came from.
#[derive(Debug)]
pub struct TtftDataPoint {
    pub server_id: u128,
    pub source: String,
    pub shown: TtftDataPointOut,
}

/// The points of a server and a source, in their order.
pub open spec fn points_of(
    points: Seq<TtftDataPoint>,
    server_id: u128,
    source: Seq<char>,
) -> Seq<TtftDataPointOut>
    decreases points.len(),
{
    if points.len() == 0 {
        Seq::empty()
    } else {
        let rest = points_of(points.drop_last(), server_id, source);
        if points.last().server_id == server_id && points.last().source@ == source {
            rest.push(points.last().shown)
        } else {
            rest
        }
    }
}

fn select_points(points: &Vec<TtftDataPoint>, server_id: u128, source: &str) -> (r: Vec<
    TtftDataPointOut,
>)
    ensures
        r@ == points_of(points@, server_id, source@),
{
    let mut out: Vec<TtftDataPointOut> = Vec::new();
    assert(out@ =~= points_of(points@.take(0), server_id, source@));
    for i in 0..points.len()
        invariant
            out@ == points_of(points@.take(i as int), server_id, source@),
    {
        let ghost more = points@.take(i + 1);
        assert(more.drop_last() =~= points@.take(i as int));
        assert(more.last() == points@[i as int]);
        if points[i].server_id == server_id && str_eq(points[i].source.as_str(), source) {
            out.push(points[i].shown);
        }
    }
    assert(points@.take(points@.len() as int) =~= points@);
    out
}

/// The row is for the same server and source as an earlier one.
pub open spec fn repeats(rows: Seq<(u128, String)>, i: int) -> bool {
    exists|j: int|
        0 <= j < i && (#[trigger] rows[j]).0 == rows[i].0 && rows[j].1@ == rows[i].1@
}

fn is_repeated(rows: &Vec<(u128, String)>, i: usize) -> (r: bool)
    requires
        i < rows@.len(),
    ensures
        r == repeats(rows@, i as int),
{
    for j in 0..i
        invariant
            i < rows@.len(),
            forall|k: int|
                0 <= k < j ==> !((#[trigger] rows@[k]).0 == rows@[i as int].0 && rows@[k].1@
                    == rows@[i as int].1@),
    {
        if rows[j].0 == rows[i].0 && str_eq(rows[j].1.as_str(), rows[i].1.as_str()) {
            assert(rows@[j as int].0 == rows@[i as int].0);
            return true;
        }
    }
    false
}

/// Gives each row of the statistics its points: those of its server and its source. Going by
/// the server alone would merge the rows of bonus servers and user endpoints, which both
/// carry a nil server. Points are given out once: a row that repeats an earlier one has none.
pub fn group_points(rows: &Vec<(u128, String)>, points: &Vec<TtftDataPoint>) -> (r: Vec<
    Vec<TtftDataPointOut>,
>)
    ensures
        r@.len() == rows@.len(),
        forall|i: int|
            0 <= i < rows@.len() ==> (#[trigger] r@[i])@ == if repeats(rows@, i) {
                Seq::empty()
            } else {
                points_of(points@, rows@[i].0, rows@[i].1@)
            },
{
    let mut out: Vec<Vec<TtftDataPointOut>> = Vec::new();
    for i in 0..rows.len()
        invariant
            out@.len() == i,
            forall|j: int|
                0 <= j < i ==> (#[trigger] out@[j])@ == if repeats(rows@, j) {
                    Seq::empty()
                } else {
                    points_of(points@, rows@[j].0, rows@[j].1@)
                },
    {
        let own = if is_repeated(rows, i) {
            Vec::new()
        } else {
            select_points(points, rows[i].0, rows[i].1.as_str())
        };
        out.push(own);
    }
    out
}

/// Whatever the request says, one of three intervals stands in a query.
pub proof fn law_intervals_are_fixed(period: Seq<char>)
    ensures
        interval(period) == "1 hour"@ || interval(period) == "6 hours"@ || interval(period)
            == "24 hours"@,
{
}

proof fn lemma_points_of_split(
    points: Seq<TtftDataPoint>,
    server_id: u128,
    source: Seq<char>,
    shown: TtftDataPointOut,
)
    requires
        points_of(points, server_id, source).contains(shown),
    ensures
        exists|i: int|
            0 <= i < points.len() && (#[trigger] points[i]).server_id == server_id
                && points[i].source@ == source && points[i].shown == shown,
    decreases points.len(),
{
    let rest = points_of(points.drop_last(), server_id, source);
    let own = points.last().server_id == server_id && points.last().source@ == source;
    if own && points.last().shown == shown {
        assert(points[points.len() - 1].shown == shown);
    } else {
        let k = choose|k: int|
            0 <= k < points_of(points, server_id, source).len() && points_of(
                points,
                server_id,
                source,
            )[k] == shown;
        assert(rest[k] == shown);
        lemma_points_of_split(points.drop_last(), server_id, source, shown);
        let i = choose|i: int|
            0 <= i < points.drop_last().len() && (#[trigger] points.drop_last()[i]).server_id
                == server_id && points.drop_last()[i].source@ == source
                && points.drop_last()[i].shown == shown;
        assert(points[i].server_id == server_id);
    }
}

/// A row shows only points of its own server and source: bonus servers and user endpoints,
/// which share a nil server, do not mix.
pub proof fn law_rows_do_not_mix(
    points: Seq<TtftDataPoint>,
    server_id: u128,
    source: Seq<char>,
)
    ensures
        forall|shown: TtftDataPointOut| #[trigger]
            points_of(points, server_id, source).contains(shown) ==> exists|i: int|
                0 <= i < points.len() && (#[trigger] points[i]).server_id == server_id
                    && points[i].source@ == source && points[i].shown == shown,
{
    assert forall|shown: TtftDataPointOut| #[trigger]
        points_of(points, server_id, source).contains(shown) implies exists|i: int|
        0 <= i < points.len() && (#[trigger] points[i]).server_id == server_id && points[i].source@
            == source && points[i].shown == shown by {
        lemma_points_of_split(points, server_id, source, shown);
    }
}

/// A period of six hours and one of a day are asked for by name, and nothing else asks for
/// them: every other period is one hour.
pub proof fn law_interval_is_the_period(period: Seq<char>)
    ensures
        interval(period) == "6 hours"@ <==> period == "6h"@,
        interval(period) == "24 hours"@ <==> period == "24h"@,
        interval(period) == "1 hour"@ <==> period != "6h"@ && period != "24h"@,
{
    reveal_strlit("6 hours");
    reveal_strlit("24 hours");
    reveal_strlit("1 hour");
    reveal_strlit("6h");
    reveal_strlit("24h");
    assert("6 hours"@.len() == 7 && "24 hours"@.len() == 8 && "1 hour"@.len() == 6);
    assert("6h"@.len() == 2 && "24h"@.len() == 3);
}

/// A time range makes the period irrelevant; without one, no period is one hour. A sub-key
/// only ever narrows what is asked for, by the parameter behind the others.
pub proof fn law_range_comes_first(
    one: Option<Seq<char>>,
    other: Option<Seq<char>>,
    has_range: bool,
)
    ensures
        condition(true, one, false) == "WHERE t.group_id = $1 AND t.created_at >= $2 AND t.created_at < $3"@,
        condition(true, one, true) == condition(true, other, true),
        condition(false, None, false) == condition(false, Some("1h"@), false),
        one matches Some(period) ==> condition(false, one, false)
            == "WHERE t.group_id = $1 AND t.created_at > now() - interval '"@ + interval(period)
            + "'"@,
        condition(has_range, one, true) == condition(has_range, one, false) + if has_range {
            " AND t.group_key_id = $4"@
        } else {
            " AND t.group_key_id = $2"@
        },
{
    assert(condition(true, one, false) =~= "WHERE t.group_id = $1 AND t.created_at >= $2 AND t.created_at < $3"@);
    assert(condition(true, one, true) =~= condition(true, other, true));
    assert(condition(false, None, false) =~= condition(false, Some("1h"@), false));
    if let Some(period) = one {
        assert(condition(false, one, false)
            =~= "WHERE t.group_id = $1 AND t.created_at > now() - interval '"@ + interval(period)
            + "'"@);
    }
    assert(condition(true, one, true) =~= condition(true, one, false)
        + " AND t.group_key_id = $4"@);
    assert(condition(false, one, true) =~= condition(false, one, false)
        + " AND t.group_key_id = $2"@);
}

/// Only a request with both ends of a time range has one, and keeps them in their order.
pub proof fn law_range_has_two_ends(params: TtftStatsParams)
    ensures
        range_of(params) is Some <==> params.start is Some && params.end is Some,
        range_of(params) matches Some(range) ==> params.start == Some(range.0) && params.end
            == Some(range.1),
{
}

/// Points are given out in the order in which they came: what a row is shown of two lists,
/// one behind the other, is what it is shown of the first and then of the second. A single
/// point is shown to the row of its server and source, and to no other.
pub proof fn law_points_keep_their_order(
    first: Seq<TtftDataPoint>,
    then: Seq<TtftDataPoint>,
    point: TtftDataPoint,
    server_id: u128,
    source: Seq<char>,
)
    ensures
        points_of(first + then, server_id, source) == points_of(first, server_id, source)
            + points_of(then, server_id, source),
        points_of(seq![point], server_id, source) == if point.server_id == server_id
            && point.source@ == source {
            seq![point.shown]
        } else {
            Seq::empty()
        },
    decreases then.len(),
{
    reveal_with_fuel(points_of, 2);
    assert(seq![point].drop_last() =~= Seq::empty());
    assert(points_of(seq![point], server_id, source) =~= if point.server_id == server_id
        && point.source@ == source {
        seq![point.shown]
    } else {
        Seq::empty()
    });
    if then.len() == 0 {
        assert(first + then =~= first);
        assert(points_of(first, server_id, source) + points_of(then, server_id, source)
            =~= points_of(first, server_id, source));
    } else {
        law_points_keep_their_order(first, then.drop_last(), point, server_id, source);
        assert((first + then).drop_last() =~= first + then.drop_last());
        assert(points_of(first + then, server_id, source) =~= points_of(first, server_id, source)
            + points_of(then, server_id, source));
    }
}

} // verus!
