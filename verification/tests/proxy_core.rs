use cc_switch::credentials::{extract_provider_credentials, ExtractionError};
use cc_switch::failover::{
    attempt_succeeded, build_failover_plan, build_target_url, status_for_router_error,
    FailoverRouter, RouterError, MALFORMED_BODY_STATUS, UPSTREAM_BODY_STATUS,
};
use cc_switch::headers::{build_outbound_headers, filter_relay_headers, should_forward_header};
use cc_switch::json::JsonValue;
use cc_switch::model::{AppType, Provider};
use cc_switch::routing::{detect_app_type_from_user_agent, get_enabled_proxy_providers};

fn obj(entries: Vec<(&str, JsonValue)>) -> JsonValue {
    JsonValue::Obj(entries.into_iter().map(|(k, v)| (k.to_string(), v)).collect())
}

fn s(text: &str) -> JsonValue {
    JsonValue::Str(text.to_string())
}

fn claude_settings(key: &str, url: &str) -> JsonValue {
    obj(vec![("env", obj(vec![("ANTHROPIC_AUTH_TOKEN", s(key)), ("ANTHROPIC_BASE_URL", s(url))]))])
}

fn provider(id: &str, sort_index: Option<usize>, created_at: Option<i64>, enabled: bool) -> Provider {
    Provider {
        id: id.to_string(),
        name: id.to_string(),
        settings_config: claude_settings(&format!("key-{}", id), &format!("https://{}.example", id)),
        website_url: None,
        category: None,
        created_at,
        sort_index,
        proxy_enabled: Some(enabled),
        meta: None,
    }
}

#[test]
fn detects_first_kind_case_insensitively() {
    assert_eq!(detect_app_type_from_user_agent(Some("AcmeTool-CLI/1.2"), "acmetool"), AppType::Claude);
    assert_eq!(detect_app_type_from_user_agent(Some("x ACMETOOL y"), "acmetool"), AppType::Claude);
    assert_eq!(detect_app_type_from_user_agent(Some("codex/0.9"), "acmetool"), AppType::Codex);
    assert_eq!(detect_app_type_from_user_agent(None, "acmetool"), AppType::Codex);
}

#[test]
fn sorts_explicit_index_before_absent() {
    let ps = vec![
        provider("no-index", None, Some(5), true),
        provider("third", Some(9), None, true),
        provider("first", Some(1), None, true),
    ];
    let order = get_enabled_proxy_providers(&ps);
    assert_eq!(order, vec![2, 1, 0]);
}

#[test]
fn sorts_by_created_at_when_indexes_tie() {
    let ps = vec![
        provider("late", Some(1), Some(300), true),
        provider("early", Some(1), Some(100), true),
        provider("mid", Some(1), Some(200), true),
    ];
    let order = get_enabled_proxy_providers(&ps);
    assert_eq!(order, vec![1, 2, 0]);
}

#[test]
fn sort_is_stable_on_full_ties() {
    let ps = vec![
        provider("a", Some(2), Some(50), true),
        provider("b", Some(2), Some(50), true),
        provider("c", Some(2), Some(50), true),
    ];
    let order = get_enabled_proxy_providers(&ps);
    assert_eq!(order, vec![0, 1, 2]);
}

#[test]
fn sort_skips_disabled_providers() {
    let ps = vec![
        provider("off", Some(0), None, false),
        provider("on", Some(7), None, true),
    ];
    let order = get_enabled_proxy_providers(&ps);
    assert_eq!(order, vec![1]);
}

#[test]
fn hop_by_hop_headers_are_refused() {
    for name in [
        "connection",
        "keep-alive",
        "proxy-authenticate",
        "proxy-authorization",
        "te",
        "trailers",
        "transfer-encoding",
        "upgrade",
        "host",
        "Connection",
        "HOST",
        "Transfer-Encoding",
    ] {
        assert!(!should_forward_header(name), "{} should be refused", name);
    }
    assert!(should_forward_header("content-type"));
    assert!(should_forward_header("x-request-id"));
    assert!(should_forward_header("authorization"));
}

#[test]
fn outbound_headers_drop_hop_by_hop_and_rewrite_authorization() {
    let inbound = vec![
        ("Connection".to_string(), "keep-alive".to_string()),
        ("Authorization".to_string(), "Bearer caller-token".to_string()),
        ("Content-Type".to_string(), "application/json".to_string()),
        ("Host".to_string(), "localhost:12857".to_string()),
        ("X-Trace".to_string(), "abc".to_string()),
    ];
    let out = build_outbound_headers(&inbound, "real-key");
    assert_eq!(
        out,
        vec![
            ("Content-Type".to_string(), "application/json".to_string()),
            ("X-Trace".to_string(), "abc".to_string()),
            ("authorization".to_string(), "Bearer real-key".to_string()),
        ]
    );
}

#[test]
fn relayed_headers_drop_hop_by_hop() {
    let upstream = vec![
        ("content-type".to_string(), "text/plain".to_string()),
        ("Transfer-Encoding".to_string(), "chunked".to_string()),
        ("x-rate".to_string(), "10".to_string()),
    ];
    let out = filter_relay_headers(&upstream);
    assert_eq!(
        out,
        vec![
            ("content-type".to_string(), "text/plain".to_string()),
            ("x-rate".to_string(), "10".to_string()),
        ]
    );
}

#[test]
fn extracts_claude_credentials() {
    let p = provider("p", None, None, true);
    let creds = extract_provider_credentials(&p, AppType::Claude).unwrap();
    assert_eq!(creds.0, "key-p");
    assert_eq!(creds.1, "https://p.example");
}

#[test]
fn claude_missing_env_is_reported() {
    let mut p = provider("p", None, None, true);
    p.settings_config = obj(vec![("other", s("x"))]);
    let err = extract_provider_credentials(&p, AppType::Claude).unwrap_err();
    assert_eq!(err, ExtractionError::MissingField("env".to_string()));
}

#[test]
fn claude_missing_token_is_reported() {
    let mut p = provider("p", None, None, true);
    p.settings_config = obj(vec![("env", obj(vec![("ANTHROPIC_BASE_URL", s("https://x"))]))]);
    let err = extract_provider_credentials(&p, AppType::Claude).unwrap_err();
    assert_eq!(err, ExtractionError::MissingField("ANTHROPIC_AUTH_TOKEN".to_string()));
}

fn codex_settings(config: &str) -> JsonValue {
    obj(vec![
        ("auth", obj(vec![("OPENAI_API_KEY", s("sk-test"))])),
        ("config", s(config)),
    ])
}

#[test]
fn extracts_codex_base_url_from_config_text() {
    let mut p = provider("c", None, None, true);
    p.settings_config = codex_settings("model = \"gpt\"\nbase_url = \"https://api.example.com/v1\"\n");
    let creds = extract_provider_credentials(&p, AppType::Codex).unwrap();
    assert_eq!(creds.0, "sk-test");
    assert_eq!(creds.1, "https://api.example.com/v1");
}

#[test]
fn codex_single_quoted_base_url_is_accepted() {
    let mut p = provider("c", None, None, true);
    p.settings_config = codex_settings("base_url = 'https://q.example'");
    let creds = extract_provider_credentials(&p, AppType::Codex).unwrap();
    assert_eq!(creds.1, "https://q.example");
}

#[test]
fn codex_first_base_url_assignment_wins() {
    let mut p = provider("c", None, None, true);
    p.settings_config =
        codex_settings("base_url = \"https://one.example\"\nbase_url = \"https://two.example\"");
    let creds = extract_provider_credentials(&p, AppType::Codex).unwrap();
    assert_eq!(creds.1, "https://one.example");
}

#[test]
fn codex_missing_base_url_is_reported() {
    let mut p = provider("c", None, None, true);
    p.settings_config = codex_settings("model = \"gpt\"");
    let err = extract_provider_credentials(&p, AppType::Codex).unwrap_err();
    assert_eq!(err, ExtractionError::MissingField("base_url".to_string()));
}

#[test]
fn codex_malformed_base_url_is_reported() {
    let mut p = provider("c", None, None, true);
    p.settings_config = codex_settings("base_url = unquoted");
    let err = extract_provider_credentials(&p, AppType::Codex).unwrap_err();
    assert_eq!(err, ExtractionError::MalformedConfig);
}

#[test]
fn codex_missing_auth_is_reported() {
    let mut p = provider("c", None, None, true);
    p.settings_config = obj(vec![("config", s("base_url = \"https://x\""))]);
    let err = extract_provider_credentials(&p, AppType::Codex).unwrap_err();
    assert_eq!(err, ExtractionError::MissingField("auth".to_string()));
}

#[test]
fn target_url_strips_trailing_slashes() {
    assert_eq!(build_target_url("https://api.example.com/", "/v1/chat"), "https://api.example.com/v1/chat");
    assert_eq!(build_target_url("https://api.example.com///", "/v1"), "https://api.example.com/v1");
    assert_eq!(build_target_url("https://api.example.com", "/v1"), "https://api.example.com/v1");
}

#[test]
fn no_eligible_provider_maps_to_503() {
    let ps = vec![provider("off", Some(1), None, false)];
    let order = get_enabled_proxy_providers(&ps);
    let err = build_failover_plan(&ps, &order, AppType::Claude, "/v1", 1).unwrap_err();
    assert_eq!(err, RouterError::NoEligibleProvider);
    assert_eq!(status_for_router_error(&err), 503);
    assert_eq!(status_for_router_error(&RouterError::AllProvidersExhausted), 500);
    assert_eq!(MALFORMED_BODY_STATUS, 400);
    assert_eq!(UPSTREAM_BODY_STATUS, 502);
}

#[test]
fn providers_failing_extraction_are_skipped() {
    let mut bad = provider("bad", Some(0), None, true);
    bad.settings_config = obj(vec![]);
    let good = provider("good", Some(1), None, true);
    let ps = vec![bad, good];
    let order = get_enabled_proxy_providers(&ps);
    assert_eq!(order, vec![0, 1]);
    let plan = build_failover_plan(&ps, &order, AppType::Claude, "/v1", 0).unwrap();
    assert_eq!(plan.entries.len(), 1);
    assert_eq!(plan.entries[0].provider_index, 1);
    assert_eq!(plan.entries[0].api_key, "key-good");
    assert_eq!(plan.entries[0].target_url, "https://good.example/v1");
}

#[test]
fn failing_provider_is_attempted_retry_count_plus_one_times() {
    let ps = vec![provider("a", Some(1), None, true), provider("b", Some(2), None, true)];
    let order = get_enabled_proxy_providers(&ps);
    let plan = build_failover_plan(&ps, &order, AppType::Claude, "/", 2).unwrap();
    let mut router = FailoverRouter::start(&plan);
    let mut attempts_on_first = 0;
    while let Some((entry, _attempt)) = router.next_attempt() {
        if entry == 0 {
            attempts_on_first += 1;
            router.record_outcome(false);
        } else {
            break;
        }
    }
    assert_eq!(attempts_on_first, 3);
    assert_eq!(router.next_attempt(), Some((1, 0)));
}

#[test]
fn failover_relays_first_success_and_stops() {
    // provider A (sortIndex 1) always answers 500; provider B (sortIndex 2)
    // answers 200 first; retry count 1: A is tried twice, then B once.
    let ps = vec![provider("a", Some(1), None, true), provider("b", Some(2), None, true)];
    let order = get_enabled_proxy_providers(&ps);
    let plan = build_failover_plan(&ps, &order, AppType::Claude, "/v1/messages", 1).unwrap();
    assert_eq!(plan.entries.len(), 2);
    let mut router = FailoverRouter::start(&plan);
    let mut log: Vec<(usize, usize)> = Vec::new();
    let mut relayed: Option<usize> = None;
    while let Some((entry, attempt)) = router.next_attempt() {
        log.push((entry, attempt));
        let status: u16 = if entry == 0 { 500 } else { 200 };
        let ok = attempt_succeeded(status);
        router.record_outcome(ok);
        if ok {
            relayed = Some(entry);
            break;
        }
    }
    assert_eq!(log, vec![(0, 0), (0, 1), (1, 0)]);
    assert_eq!(relayed, Some(1));
    // once relayed, no further provider is contacted
    assert_eq!(router.next_attempt(), None);
    assert!(!router.exhausted());
}

#[test]
fn exhausting_every_provider_fails() {
    let ps = vec![provider("only", Some(1), None, true)];
    let order = get_enabled_proxy_providers(&ps);
    let plan = build_failover_plan(&ps, &order, AppType::Claude, "/", 1).unwrap();
    let mut router = FailoverRouter::start(&plan);
    while let Some(_) = router.next_attempt() {
        router.record_outcome(false);
    }
    assert!(router.exhausted());
    assert_eq!(status_for_router_error(&RouterError::AllProvidersExhausted), 500);
}

#[test]
fn only_status_200_counts_as_success() {
    assert!(attempt_succeeded(200));
    assert!(!attempt_succeeded(201));
    assert!(!attempt_succeeded(301));
    assert!(!attempt_succeeded(404));
    assert!(!attempt_succeeded(500));
}

#[test]
fn codex_base_url_scan_handles_spacing_forms() {
    for cfg in [
        "base_url=\"https://t.example\"",
        "base_url   =   \"https://t.example\"",
        "base_url\t=\n\"https://t.example\"",
        "prefix text then base_url = \"https://t.example\" and more",
    ] {
        let mut p = provider("c", None, None, true);
        p.settings_config = codex_settings(cfg);
        let creds = extract_provider_credentials(&p, AppType::Codex).unwrap();
        assert_eq!(creds.1, "https://t.example", "config: {}", cfg);
    }
}

#[test]
fn codex_empty_quoted_base_url_is_malformed() {
    let mut p = provider("c", None, None, true);
    p.settings_config = codex_settings("base_url = \"\"");
    let err = extract_provider_credentials(&p, AppType::Codex).unwrap_err();
    assert_eq!(err, ExtractionError::MalformedConfig);
}

#[test]
fn absent_created_at_ties_keep_registry_order() {
    // on a tied explicit index, a provider without a createdAt ties with
    // every other, so the stable sort keeps registry order
    let ps = vec![
        provider("unknown-time", Some(3), None, true),
        provider("known-time", Some(3), Some(9), true),
    ];
    let order = get_enabled_proxy_providers(&ps);
    assert_eq!(order, vec![0, 1]);

    // the tie with the middle provider also stops the known-time
    // comparison from reaching across it
    let mixed = vec![
        provider("late", Some(1), Some(500), true),
        provider("no-time", Some(1), None, true),
        provider("early", Some(1), Some(100), true),
    ];
    let order = get_enabled_proxy_providers(&mixed);
    assert_eq!(order, vec![0, 1, 2]);
}

#[test]
fn with_id_leaves_ordering_keys_unset() {
    let p = Provider::with_id(
        "id-1".to_string(),
        "Name".to_string(),
        s("cfg"),
        Some("https://site.example".to_string()),
    );
    assert_eq!(p.id, "id-1");
    assert_eq!(p.name, "Name");
    assert_eq!(p.settings_config, s("cfg"));
    assert_eq!(p.website_url.as_deref(), Some("https://site.example"));
    assert!(p.sort_index.is_none());
    assert!(p.created_at.is_none());
    assert!(p.proxy_enabled.is_none());
    assert!(p.meta.is_none());
}
