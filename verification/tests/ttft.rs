use viber_router::ttft::{
    error_body, group_points, plan_queries, resolve_interval, TtftDataPoint, TtftDataPointOut,
    TtftStatsParams,
};

fn params() -> TtftStatsParams {
    TtftStatsParams {
        group_id: Some(1),
        group_key_id: None,
        period: None,
        start: None,
        end: None,
    }
}

fn point(server_id: u128, source: &str, created_at: i64) -> TtftDataPoint {
    TtftDataPoint {
        server_id,
        source: source.to_string(),
        shown: TtftDataPointOut {
            created_at,
            ttft_ms: Some(1),
            total_ms: None,
            timed_out: false,
            is_streaming: true,
        },
    }
}

fn times(points: &[TtftDataPointOut]) -> Vec<i64> {
    points.iter().map(|p| p.created_at).collect()
}

#[test]
fn periods_stand_for_intervals() {
    assert_eq!(resolve_interval("1h"), "1 hour");
    assert_eq!(resolve_interval("6h"), "6 hours");
    assert_eq!(resolve_interval("24h"), "24 hours");
    assert_eq!(resolve_interval("tomorrow"), "1 hour");
}

#[test]
fn a_group_is_required() {
    let none = TtftStatsParams { group_id: None, ..params() };
    assert_eq!(plan_queries(&none).unwrap_err(), "group_id is required");
    assert_eq!(error_body("group_id is required").to_text(), r#"{"error":"group_id is required"}"#);
}

#[test]
fn a_period_is_up_to_now() {
    let queries = plan_queries(&TtftStatsParams {
        period: Some("6h".to_string()),
        group_key_id: Some(7),
        start: Some(5),
        ..params()
    })
    .unwrap();
    assert_eq!(queries.range, None);
    assert_eq!(
        queries.points,
        "SELECT t.server_id, t.source, t.created_at, t.ttft_ms, t.total_ms, t.timed_out, \
         t.is_streaming FROM ttft_logs t WHERE t.group_id = $1 AND t.created_at > now() - \
         interval '6 hours' AND t.group_key_id = $2 ORDER BY t.created_at"
    );
    assert!(queries.aggregate.ends_with(
        "FROM ttft_logs t LEFT JOIN servers s ON s.id = t.server_id WHERE t.group_id = $1 AND \
         t.created_at > now() - interval '6 hours' AND t.group_key_id = $2 GROUP BY t.server_id, \
         t.source, s.name ORDER BY server_name"
    ));
    let default = plan_queries(&params()).unwrap();
    assert!(default.points.contains("interval '1 hour' ORDER BY"));
}

#[test]
fn a_range_comes_before_the_period() {
    let queries = plan_queries(&TtftStatsParams {
        period: Some("6h".to_string()),
        start: Some(5),
        end: Some(9),
        group_key_id: Some(7),
        ..params()
    })
    .unwrap();
    assert_eq!(queries.range, Some((5, 9)));
    assert_eq!((queries.group_id, queries.group_key_id), (1, Some(7)));
    assert!(queries.points.contains(
        "WHERE t.group_id = $1 AND t.created_at >= $2 AND t.created_at < $3 AND \
         t.group_key_id = $4 ORDER BY"
    ));
}

#[test]
fn points_go_by_server_and_source() {
    let points = vec![
        point(0, "bonus", 1),
        point(0, "user_endpoint", 2),
        point(5, "group_server", 3),
        point(0, "bonus", 4),
    ];
    let rows = vec![
        (0, "user_endpoint".to_string()),
        (0, "bonus".to_string()),
        (9, "group_server".to_string()),
        (0, "bonus".to_string()),
    ];
    let grouped = group_points(&rows, &points);
    let grouped: Vec<Vec<i64>> = grouped.iter().map(|g| times(g)).collect();
    assert_eq!(grouped, vec![vec![2], vec![1, 4], vec![], vec![]]);
}
