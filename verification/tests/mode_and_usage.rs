use cc_switch::json::JsonValue;
use cc_switch::mode::{
    claude_proxy_settings, codex_proxy_auth, codex_proxy_config_text, plan_claude_write,
    plan_codex_write, switch_to_proxy_mode, switch_to_write_mode, ModeError,
};
use cc_switch::model::{MultiAppConfig, Provider, ProviderManager};
use cc_switch::server::{OperationMode, ProxyServer, ServerPhase, StartAction, StopAction};
use cc_switch::store_prefs::{
    config_dir_store_action, interpret_config_dir_entry, resolve_path, trim_exec, ResolvedPath,
    StoreAction,
};
use cc_switch::usage::{
    accept_http_response, parse_request_config, substitute_placeholders, validate_result,
    validate_single_usage, UsageError, ValidationError,
};

fn obj(entries: Vec<(&str, JsonValue)>) -> JsonValue {
    JsonValue::Obj(entries.into_iter().map(|(k, v)| (k.to_string(), v)).collect())
}

fn s(text: &str) -> JsonValue {
    JsonValue::Str(text.to_string())
}

fn num(text: &str) -> JsonValue {
    JsonValue::Num(text.to_string())
}

fn provider_with(id: &str, settings: JsonValue) -> Provider {
    Provider {
        id: id.to_string(),
        name: id.to_string(),
        settings_config: settings,
        website_url: None,
        category: None,
        created_at: None,
        sort_index: None,
        proxy_enabled: Some(true),
        meta: None,
    }
}

#[test]
fn proxy_mode_claude_settings_without_common_config() {
    let v = claude_proxy_settings(None);
    let expected = obj(vec![(
        "env",
        obj(vec![
            ("ANTHROPIC_AUTH_TOKEN", s("ccswitch-proxymode-token")),
            ("ANTHROPIC_BASE_URL", s("http://127.0.0.1:12857")),
        ]),
    )]);
    assert_eq!(v, expected);
}

#[test]
fn proxy_mode_merges_common_fields_but_keeps_placeholders() {
    let common = obj(vec![
        ("model", s("m-large")),
        (
            "env",
            obj(vec![
                ("ANTHROPIC_AUTH_TOKEN", s("should-not-win")),
                ("HTTP_PROXY", s("http://corp:3128")),
            ]),
        ),
    ]);
    let v = claude_proxy_settings(Some(&common));
    let expected = obj(vec![
        (
            "env",
            obj(vec![
                ("ANTHROPIC_AUTH_TOKEN", s("ccswitch-proxymode-token")),
                ("ANTHROPIC_BASE_URL", s("http://127.0.0.1:12857")),
                ("HTTP_PROXY", s("http://corp:3128")),
            ]),
        ),
        ("model", s("m-large")),
    ]);
    assert_eq!(v, expected);
}

#[test]
fn proxy_mode_ignores_non_object_common_config() {
    let v = claude_proxy_settings(Some(&s("not an object")));
    assert_eq!(v, claude_proxy_settings(None));
}

#[test]
fn proxy_mode_codex_auth_and_config_text() {
    let auth = codex_proxy_auth();
    assert_eq!(auth, obj(vec![("OPENAI_API_KEY", s("ccswitch-proxymode-token"))]));

    let text = codex_proxy_config_text(None);
    let expected = "model_provider = \"ccswitch\"\n\n[model_providers.ccswitch]\nbase_url = \"http://127.0.0.1:12857\"\nname = \"ccswitch\"\nrequires_openai_auth = true\nwire_api = \"responses\"\n";
    assert_eq!(text, expected);

    let with_common = codex_proxy_config_text(Some("sandbox_mode = \"strict\""));
    assert_eq!(with_common, format!("{}\nsandbox_mode = \"strict\"", expected));

    let with_empty = codex_proxy_config_text(Some(""));
    assert_eq!(with_empty, expected);
}

#[test]
fn round_trip_restores_current_provider_credentials() {
    // Switching to Proxy mode touches no registry; switching back to Direct
    // mode writes the current provider's stored configuration verbatim.
    let claude_settings = obj(vec![(
        "env",
        obj(vec![
            ("ANTHROPIC_AUTH_TOKEN", s("sk-live-one")),
            ("ANTHROPIC_BASE_URL", s("https://one.example")),
        ]),
    )]);
    let codex_settings = obj(vec![
        ("auth", obj(vec![("OPENAI_API_KEY", s("sk-live-codex"))])),
        ("config", s("base_url = \"https://codex.example\"")),
    ]);
    let mut config = MultiAppConfig {
        claude: ProviderManager {
            providers: vec![provider_with("c1", claude_settings)],
            current: "c1".to_string(),
        },
        codex: ProviderManager {
            providers: vec![provider_with("x1", codex_settings)],
            current: "x1".to_string(),
        },
    };

    let _proxy_files = switch_to_proxy_mode(None, None);

    let plan = switch_to_write_mode(&mut config);
    let claude_written = plan.claude.expect("first kind write owed");
    assert_eq!(
        claude_written,
        obj(vec![(
            "env",
            obj(vec![
                ("ANTHROPIC_AUTH_TOKEN", s("sk-live-one")),
                ("ANTHROPIC_BASE_URL", s("https://one.example")),
            ]),
        )])
    );
    let codex_written = plan.codex.unwrap().expect("codex write owed");
    assert_eq!(codex_written.auth, obj(vec![("OPENAI_API_KEY", s("sk-live-codex"))]));
    assert_eq!(codex_written.config_text.as_deref(), Some("base_url = \"https://codex.example\""));
    assert_eq!(config.claude.current, "c1");
    assert_eq!(config.codex.current, "x1");
}

#[test]
fn write_mode_picks_first_provider_when_none_selected() {
    let early = {
        let mut p = provider_with("early", obj(vec![("env", obj(vec![]))]));
        p.sort_index = Some(1);
        p
    };
    let late = {
        let mut p = provider_with("late", obj(vec![("env", obj(vec![]))]));
        p.sort_index = Some(2);
        p
    };
    let mut manager = ProviderManager { providers: vec![late, early], current: String::new() };
    let written = plan_claude_write(&mut manager).expect("a provider is chosen");
    assert_eq!(written, obj(vec![("env", obj(vec![]))]));
    assert_eq!(manager.current, "early");
}

#[test]
fn write_mode_with_empty_registry_skips() {
    let mut manager = ProviderManager { providers: vec![], current: String::new() };
    assert_eq!(plan_claude_write(&mut manager), None);
    assert_eq!(plan_codex_write(&mut manager), Ok(None));
}

#[test]
fn write_mode_codex_without_auth_fails_hard() {
    let mut manager = ProviderManager {
        providers: vec![provider_with("x", obj(vec![("config", s("base_url = \"https://u\""))]))],
        current: "x".to_string(),
    };
    assert_eq!(plan_codex_write(&mut manager), Err(ModeError::MissingAuth));
}

#[test]
fn substitutes_both_placeholders_everywhere() {
    let script = "({request:{url:'{{baseUrl}}/usage?key={{apiKey}}'},k:'{{apiKey}}'})";
    let out = substitute_placeholders(script, "sk-1", "https://u.example");
    assert_eq!(out, "({request:{url:'https://u.example/usage?key=sk-1'},k:'sk-1'})");
}

#[test]
fn parses_full_request_descriptor() {
    let v = obj(vec![
        ("url", s("https://u.example/usage")),
        ("method", s("GET")),
        ("headers", obj(vec![("x-api-key", s("k"))])),
        ("body", JsonValue::Null),
    ]);
    let rc = parse_request_config(&v).unwrap();
    assert_eq!(rc.url, "https://u.example/usage");
    assert_eq!(rc.method, "GET");
    assert_eq!(rc.headers, vec![("x-api-key".to_string(), "k".to_string())]);
    assert_eq!(rc.body, None);
}

#[test]
fn request_descriptor_defaults_and_errors() {
    let no_headers = obj(vec![("url", s("https://u")), ("method", s("POST")), ("body", s("{}"))]);
    let rc = parse_request_config(&no_headers).unwrap();
    assert!(rc.headers.is_empty());
    assert_eq!(rc.body.as_deref(), Some("{}"));

    let missing_method = obj(vec![("url", s("https://u"))]);
    assert_eq!(parse_request_config(&missing_method), Err(UsageError::RequestShape));

    let bad_header = obj(vec![
        ("url", s("https://u")),
        ("method", s("GET")),
        ("headers", obj(vec![("n", num("1"))])),
    ]);
    assert_eq!(parse_request_config(&bad_header), Err(UsageError::RequestShape));

    assert_eq!(parse_request_config(&s("nope")), Err(UsageError::RequestShape));
}

#[test]
fn http_gate_accepts_2xx_and_previews_failures() {
    assert!(accept_http_response(200, "ok").is_ok());
    assert!(accept_http_response(204, "").is_ok());

    let long_body: String = "x".repeat(250);
    match accept_http_response(404, &long_body) {
        Err(UsageError::Http { status, preview }) => {
            assert_eq!(status, 404);
            assert_eq!(preview, format!("{}...", "x".repeat(200)));
        }
        other => panic!("unexpected: {:?}", other),
    }
    match accept_http_response(500, "short") {
        Err(UsageError::Http { status, preview }) => {
            assert_eq!(status, 500);
            assert_eq!(preview, "short");
        }
        other => panic!("unexpected: {:?}", other),
    }
}

#[test]
fn validation_rejects_empty_array() {
    let v = JsonValue::Arr(vec![]);
    assert_eq!(validate_result(&v), Err(ValidationError::EmptyArray));
}

#[test]
fn validation_rejects_non_object_element() {
    let v = JsonValue::Arr(vec![obj(vec![]), num("3")]);
    assert_eq!(
        validate_result(&v),
        Err(ValidationError::NotAnObject { index: Some(1) })
    );
}

#[test]
fn validation_rejects_non_boolean_is_valid() {
    let v = obj(vec![("isValid", s("yes"))]);
    assert_eq!(
        validate_result(&v),
        Err(ValidationError::WrongType { index: None, field: "isValid".to_string() })
    );
}

#[test]
fn validation_accepts_fully_empty_object() {
    assert_eq!(validate_result(&obj(vec![])), Ok(()));
    assert_eq!(validate_single_usage(&obj(vec![])), Ok(()));
}

#[test]
fn validation_names_string_total_as_wrong_type() {
    // an extractor returning {"total": "100"} (string, not number) fails
    // naming the field
    let v = obj(vec![("total", s("100"))]);
    assert_eq!(
        validate_result(&v),
        Err(ValidationError::WrongType { index: None, field: "total".to_string() })
    );
}

#[test]
fn validation_accepts_nulls_and_correct_types() {
    let v = obj(vec![
        ("isValid", JsonValue::Bool(true)),
        ("planName", s("Pro")),
        ("total", num("100")),
        ("used", JsonValue::Null),
        ("extra", JsonValue::Null),
    ]);
    assert_eq!(validate_result(&v), Ok(()));
    let arr = JsonValue::Arr(vec![obj(vec![("remaining", num("7.5"))])]);
    assert_eq!(validate_result(&arr), Ok(()));
}

#[test]
fn validation_reports_index_in_arrays() {
    let v = JsonValue::Arr(vec![obj(vec![]), obj(vec![("unit", num("1"))])]);
    assert_eq!(
        validate_result(&v),
        Err(ValidationError::WrongType { index: Some(1), field: "unit".to_string() })
    );
}

#[test]
fn server_lifecycle_is_idempotent() {
    let mut server = ProxyServer::init();
    assert_eq!(server.phase, ServerPhase::Stopped);

    assert_eq!(server.on_start(OperationMode::Direct), StartAction::NotProxyMode);
    assert_eq!(server.phase, ServerPhase::Stopped);

    assert_eq!(server.on_start(OperationMode::Proxy), StartAction::Bind);
    assert_eq!(server.phase, ServerPhase::Starting);
    server.on_bound(true);
    assert_eq!(server.phase, ServerPhase::Running);

    assert_eq!(server.on_start(OperationMode::Proxy), StartAction::AlreadyRunning);
    assert_eq!(server.phase, ServerPhase::Running);

    assert_eq!(server.on_stop(), StopAction::Abort);
    assert_eq!(server.phase, ServerPhase::Stopping);
    server.on_aborted();
    assert_eq!(server.phase, ServerPhase::Stopped);

    assert_eq!(server.on_stop(), StopAction::NotRunning);
    assert_eq!(server.phase, ServerPhase::Stopped);
}

#[test]
fn failed_bind_returns_to_stopped() {
    let mut server = ProxyServer::init();
    assert_eq!(server.on_start(OperationMode::Proxy), StartAction::Bind);
    server.on_bound(false);
    assert_eq!(server.phase, ServerPhase::Stopped);
}

#[test]
fn path_resolution_handles_home_prefixes() {
    assert_eq!(resolve_path("~"), ResolvedPath::HomeItself);
    assert_eq!(resolve_path("~/cfg/dir"), ResolvedPath::UnderHome("cfg/dir".to_string()));
    assert_eq!(resolve_path("~\\cfg"), ResolvedPath::UnderHome("cfg".to_string()));
    assert_eq!(resolve_path("/abs/path"), ResolvedPath::Verbatim("/abs/path".to_string()));
    assert_eq!(resolve_path("~x"), ResolvedPath::Verbatim("~x".to_string()));
}

#[test]
fn store_entry_interpretation_trims_and_filters() {
    assert_eq!(trim_exec("  /a/b \t"), "/a/b");
    assert_eq!(trim_exec(" \n "), "");

    let entry = s("  /data/cfg  ");
    assert_eq!(interpret_config_dir_entry(Some(&entry)), Some("/data/cfg".to_string()));
    assert_eq!(interpret_config_dir_entry(Some(&s("   "))), None);
    assert_eq!(interpret_config_dir_entry(Some(&num("3"))), None);
    assert_eq!(interpret_config_dir_entry(None), None);
}

#[test]
fn store_write_action_puts_trimmed_or_removes() {
    assert_eq!(config_dir_store_action(Some(" /x ")), StoreAction::Put("/x".to_string()));
    assert_eq!(config_dir_store_action(Some("   ")), StoreAction::Remove);
    assert_eq!(config_dir_store_action(None), StoreAction::Remove);
}

#[test]
fn write_mode_codex_picks_first_provider_when_none_selected() {
    let settings = obj(vec![
        ("auth", obj(vec![("OPENAI_API_KEY", s("sk-first"))])),
        ("config", s("base_url = \"https://first.example\"")),
    ]);
    let mut manager = ProviderManager {
        providers: vec![provider_with("cx", settings)],
        current: String::new(),
    };
    let written = plan_codex_write(&mut manager).unwrap().expect("codex write owed");
    assert_eq!(written.auth, obj(vec![("OPENAI_API_KEY", s("sk-first"))]));
    assert_eq!(written.config_text.as_deref(), Some("base_url = \"https://first.example\""));
    assert_eq!(manager.current, "cx");
}
