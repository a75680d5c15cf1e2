use viber_router::json::Json;
use viber_router::proxy::admission::{
    blocked_paths, counts_tokens, enter, is_model_allowed, keys_to_look_up, let_in,
};
use viber_router::proxy::config::{
    after_group, after_group_key, after_sub_key, assemble, assigned_servers, disabled_config,
    failover_codes, CountTokensServer, GroupConfig, GroupRow, Loaded, Lookup, Search,
};
use viber_router::proxy::hours::ActiveHours;
use viber_router::proxy::refusal::Refusal;
use viber_router::proxy::request::{client_key, header_text, user_agent, Headers};
use viber_router::proxy::servers::Server;

fn texts(items: &[&str]) -> Vec<String> {
    items.iter().map(|s| s.to_string()).collect()
}

fn headers(items: &[(&str, &[u8])]) -> Headers {
    items.iter().map(|(n, v)| (n.to_string(), v.to_vec())).collect()
}

fn json(text: &str) -> Json {
    Json::from_slice(text.as_bytes()).unwrap()
}

fn server(id: u128) -> Server {
    Server {
        server_id: id,
        short_id: 0,
        server_name: String::new(),
        base_url: String::new(),
        api_key: None,
        system_prompt: None,
        remove_thinking: false,
        model_mappings: Json::Null,
        breaker: None,
        max_requests: None,
        rate_window_seconds: None,
        per_key_max_requests: None,
        per_key_rate_window_seconds: None,
        max_input_tokens: None,
        min_input_tokens: None,
        supported_models: vec![],
        active_hours: ActiveHours { start: None, end: None, timezone: None },
        retry: None,
        custom_headers: None,
        non_stream_timeout_ms: None,
    }
}

fn group() -> GroupRow {
    GroupRow {
        group_id: 1,
        name: "g".to_string(),
        api_key: "k".to_string(),
        is_active: true,
        failover_status_codes: json("[500]"),
        ttft_timeout_ms: Some(9),
    }
}

fn loaded() -> Loaded {
    Loaded {
        servers: Some(vec![server(1), server(2), server(3)]),
        assigned: Some(vec![3, 1]),
        allowed_models: Some(texts(&["a", "b"])),
        key_allowed_models: Some(texts(&["a"])),
        blocked_user_agents: Some(texts(&["curl/8"])),
    }
}

fn config(key: Option<u128>) -> GroupConfig {
    assemble(group(), key, loaded(), None).unwrap()
}

fn ids(servers: &[Server]) -> Vec<u128> {
    servers.iter().map(|s| s.server_id).collect()
}

#[test]
fn the_cache_comes_before_the_settings() {
    let cached = blocked_paths(Ok(Some(texts(&["/a"]))), Some(texts(&["/b"])));
    assert_eq!(cached, texts(&["/a"]));
    assert_eq!(blocked_paths(Ok(None), Some(texts(&["/b"]))), texts(&["/b"]));
    assert!(blocked_paths(Ok(None), None).is_empty());
    assert!(blocked_paths(Err(()), Some(texts(&["/b"]))).is_empty());
}

#[test]
fn a_blocked_path_is_not_found() {
    let key = headers(&[("x-api-key", b"k1")]);
    let blocked = texts(&["/v1/models"]);
    assert_eq!(enter(&blocked, "/v1/models", &key), Err(Refusal::NotFound));
    assert_eq!(enter(&blocked, "/v1/models", &vec![]), Err(Refusal::NotFound));
    assert_eq!(enter(&blocked, "/v1/messages", &key), Ok("k1".to_string()));
    assert_eq!(enter(&blocked, "/v1/messages", &vec![]), Err(Refusal::InvalidKey));
}

#[test]
fn the_key_header_comes_before_the_bearer_token() {
    let both = headers(&[("authorization", b"Bearer t"), ("x-api-key", b"k")]);
    assert_eq!(client_key(&both), Some("k".to_string()));
    let bearer = headers(&[("authorization", b"Bearer t")]);
    assert_eq!(client_key(&bearer), Some("t".to_string()));
    let basic = headers(&[("authorization", b"Basic t")]);
    assert_eq!(client_key(&basic), None);
    let garbled = headers(&[("x-api-key", b"k\xff"), ("authorization", b"Bearer t")]);
    assert_eq!(client_key(&garbled), Some("t".to_string()));
}

#[test]
fn header_values_are_visible_ascii() {
    assert_eq!(header_text(b"a\tb ~"), Some("a\tb ~"));
    assert_eq!(header_text(b""), Some(""));
    assert_eq!(header_text(b"a\nb"), None);
    assert_eq!(header_text("\u{e9}".as_bytes()), None);
    assert_eq!(header_text(b"\x7f"), None);
}

#[test]
fn the_user_agent_is_trimmed() {
    assert_eq!(user_agent(&headers(&[("user-agent", b" curl/8 ")])), "curl/8");
    assert_eq!(user_agent(&headers(&[("user-agent", b"  ")])), "(empty)");
    assert_eq!(user_agent(&vec![]), "(empty)");
}

#[test]
fn the_raw_key_is_tried_where_it_seemed_to_bring_others() {
    assert_eq!(keys_to_look_up("g", false, "g-rsv-1"), texts(&["g"]));
    assert_eq!(keys_to_look_up("g", true, "g-rsv-1"), texts(&["g", "g-rsv-1"]));
}

#[test]
fn keys_are_let_in_or_refused() {
    let agent = headers(&[("user-agent", b"curl/8")]);
    let other = headers(&[("user-agent", b"sdk/1")]);
    assert_eq!(let_in(None, &other), Err(Refusal::InvalidKey));
    let disabled = disabled_config(1, "k", 2);
    assert_eq!(let_in(Some(&disabled), &other), Err(Refusal::KeyDisabled));
    let config = config(None);
    assert_eq!(let_in(Some(&config), &agent), Err(Refusal::AccessDenied));
    assert_eq!(let_in(Some(&config), &other), Ok("sdk/1".to_string()));
}

#[test]
fn models_are_allowed_by_group_and_key() {
    let model = |s: &str| Some(s.to_string());
    let of_key = config(Some(4));
    assert!(is_model_allowed(&of_key, &model("a")));
    assert!(!is_model_allowed(&of_key, &model("b")));
    assert!(!is_model_allowed(&of_key, &None));
    let of_group = config(None);
    assert!(is_model_allowed(&of_group, &model("b")));
    assert!(!is_model_allowed(&of_group, &model("c")));
    let open = disabled_config(1, "k", 2);
    assert!(is_model_allowed(&open, &None));
    assert!(is_model_allowed(&open, &model("c")));
}

#[test]
fn only_one_path_counts_tokens() {
    assert!(counts_tokens("/v1/messages/count_tokens"));
    assert!(!counts_tokens("/v1/messages"));
}

#[test]
fn assigned_servers_keep_the_order_of_the_group() {
    let all = || vec![server(1), server(2), server(3)];
    assert_eq!(ids(&assigned_servers(all(), &vec![3, 1])), vec![1, 3]);
    assert_eq!(ids(&assigned_servers(all(), &vec![])), vec![1, 2, 3]);
    assert_eq!(ids(&assigned_servers(all(), &vec![9])), Vec::<u128>::new());
}

#[test]
fn test_failover_status_code_matching() {
    let codes = failover_codes(&json(r#"{"not":"a list"}"#));
    assert_eq!(codes, vec![429u16, 500, 502, 503]);
    assert!(codes.contains(&429));
    assert!(codes.contains(&500));
    assert!(!codes.contains(&400));
    assert!(!codes.contains(&200));
}

#[test]
fn stored_codes_are_statuses() {
    assert_eq!(failover_codes(&json("[500, 529]")), vec![500, 529]);
    assert_eq!(failover_codes(&json("[]")), Vec::<u16>::new());
    let default = vec![429, 500, 502, 503];
    assert_eq!(failover_codes(&json("[500, 70000]")), default);
    assert_eq!(failover_codes(&json("[500, -1]")), default);
    assert_eq!(failover_codes(&json("[500.0]")), default);
    assert_eq!(failover_codes(&json(r#"["500"]"#)), default);
}

#[test]
fn a_key_is_searched_among_groups_and_sub_keys() {
    assert_eq!(after_group_key(Lookup::Found), Search::Load { sub_key: None });
    assert_eq!(after_group_key(Lookup::Missing), Search::SubKey);
    assert_eq!(after_group_key(Lookup::Failed), Search::Unknown);
    let found = Search::Group { group_id: 1, group_key_id: 2 };
    assert_eq!(after_sub_key(Some((1, true, 2))), found);
    let disabled = Search::Disabled { group_id: 1, group_key_id: 2 };
    assert_eq!(after_sub_key(Some((1, false, 2))), disabled);
    assert_eq!(after_sub_key(None), Search::Unknown);
    assert_eq!(after_group(true, 2), Search::Load { sub_key: Some(2) });
    assert_eq!(after_group(false, 2), Search::Unknown);
}

#[test]
fn a_configuration_is_put_together() {
    let of_key = config(Some(4));
    assert_eq!(ids(&of_key.servers), vec![1, 3]);
    assert_eq!(of_key.group_key_id, Some(4));
    assert_eq!(of_key.key_allowed_models, texts(&["a"]));
    assert_eq!(of_key.failover_status_codes, vec![500]);
    assert_eq!(of_key.ttft_timeout_ms, Some(9));
    let of_group = config(None);
    assert_eq!(ids(&of_group.servers), vec![1, 2, 3]);
    assert!(of_group.key_allowed_models.is_empty());
}

#[test]
fn a_configuration_needs_all_of_its_parts() {
    let without = |change: fn(&mut Loaded)| {
        let mut parts = loaded();
        change(&mut parts);
        parts
    };
    let key = Some(4);
    assert!(assemble(group(), key, without(|l| l.servers = None), None).is_none());
    assert!(assemble(group(), key, without(|l| l.assigned = None), None).is_none());
    assert!(assemble(group(), key, without(|l| l.allowed_models = None), None).is_none());
    assert!(assemble(group(), key, without(|l| l.key_allowed_models = None), None).is_none());
    assert!(assemble(group(), key, without(|l| l.blocked_user_agents = None), None).is_none());
    let counter = CountTokensServer {
        server_id: 8,
        short_id: 1,
        server_name: String::new(),
        base_url: String::new(),
        api_key: None,
        system_prompt: None,
        remove_thinking: false,
        model_mappings: Json::Null,
        custom_headers: None,
    };
    let parts = without(|l| {
        l.assigned = None;
        l.key_allowed_models = None;
    });
    let config = assemble(group(), None, parts, Some(counter)).unwrap();
    assert_eq!(config.count_tokens_server.unwrap().server_id, 8);
}

#[test]
fn a_disabled_sub_key_has_an_empty_configuration() {
    let config = disabled_config(1, "k", 2);
    assert!(!config.is_active);
    assert_eq!((config.group_id, config.group_key_id), (1, Some(2)));
    assert_eq!(config.api_key, "k");
    assert!(config.servers.is_empty() && config.allowed_models.is_empty());
}
