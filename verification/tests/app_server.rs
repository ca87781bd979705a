use syu::browser::{DefinitionCounts, Severity, TraceSummary, ValidationIssue};
use syu::cli::AppArgs;
use syu::model::CheckResult;
use syu::webapp::{
    bind_failure_message, non_loopback_warning_lines, require_remote_bind_opt_in, startup_lines,
    browser_root_labels, content_type_for_path, is_asset_like, normalized_asset_path,
    normalized_trace_snapshot_path, redacted_relative_label, redacted_root_label,
    resolve_app_server_settings, trailing_path_components_label, validation_snapshot,
    AppServerSettings, AppState, CurrentAppState, sort_source_documents,
};
use syu::browser::{AppPayload, SectionKind, SourceDocument, ValidationSnapshot};

fn app_args(bind: Option<&str>, port: Option<u16>) -> AppArgs {
    AppArgs {
        workspace: ".".to_string(),
        bind: bind.map(str::to_string),
        port,
        allow_remote: false,
    }
}

#[test]
fn normalized_asset_path_blocks_api_and_parent_segments() {
    assert_eq!(normalized_asset_path("/"), Some("index.html".to_string()));
    assert_eq!(normalized_asset_path("/assets/index.js"), Some("assets/index.js".to_string()));
    assert_eq!(normalized_asset_path("/api/app-data.json"), None);
    assert_eq!(normalized_asset_path("/../../secret"), None);
}

#[test]
fn asset_like_detection_matches_expected_paths() {
    assert!(is_asset_like("assets/index.js"));
    assert!(is_asset_like("favicon.svg"));
    assert!(!is_asset_like("requirements/REQ-001"));
}

#[test]
fn content_type_detection_covers_known_assets() {
    assert_eq!(content_type_for_path("index.html"), "text/html; charset=utf-8");
    assert_eq!(content_type_for_path("app.js"), "application/javascript; charset=utf-8");
    assert_eq!(content_type_for_path("styles.css"), "text/css; charset=utf-8");
    assert_eq!(content_type_for_path("report.json"), "application/json; charset=utf-8");
    assert_eq!(content_type_for_path("icon.svg"), "image/svg+xml");
    assert_eq!(content_type_for_path("image.png"), "image/png");
    assert_eq!(content_type_for_path("engine.wasm"), "application/wasm");
    assert_eq!(content_type_for_path("blob.bin"), "application/octet-stream");
}

#[test]
fn resolve_app_server_settings_uses_defaults_when_config_is_missing() {
    let settings = resolve_app_server_settings(&app_args(None, None), "127.0.0.1", 3000);
    assert_eq!(settings, AppServerSettings { bind: "127.0.0.1".to_string(), port: 3000 });
}

#[test]
fn resolve_app_server_settings_uses_config_when_flags_are_absent() {
    let settings = resolve_app_server_settings(&app_args(None, None), "0.0.0.0", 4100);
    assert_eq!(settings, AppServerSettings { bind: "0.0.0.0".to_string(), port: 4100 });
}

#[test]
fn resolve_app_server_settings_prefers_cli_flags_over_config() {
    let settings = resolve_app_server_settings(&app_args(Some("127.0.0.2"), Some(4200)), "0.0.0.0", 4100);
    assert_eq!(settings, AppServerSettings { bind: "127.0.0.2".to_string(), port: 4200 });
}

#[test]
fn browser_root_labels_redact_external_spec_roots() {
    let (workspace_label, spec_label) =
        browser_root_labels("/tmp/workspace", "/tmp/shared-spec/docs/syu", None, None);
    assert_eq!(workspace_label, "tmp/workspace");
    assert_eq!(spec_label, "external spec root");
}

#[test]
fn browser_root_labels_keep_nested_spec_roots_relative() {
    let (workspace_label, spec_label) =
        browser_root_labels("/tmp/workspace", "/tmp/workspace/docs/syu", Some("/tmp"), None);
    assert_eq!(workspace_label, "./workspace");
    assert_eq!(spec_label, "docs/syu");
}

#[test]
fn redacted_root_label_uses_home_relative_paths() {
    assert_eq!(
        redacted_root_label("/home/tester/src/example/spec-workspace", None, Some("/home/tester")),
        "~/src/example/spec-workspace"
    );
}

#[test]
fn redacted_root_label_falls_back_to_trailing_components() {
    assert_eq!(redacted_root_label("/var/tmp/spec-workspace", None, None), "tmp/spec-workspace");
}

#[test]
fn redacted_root_label_uses_workspace_for_root_paths() {
    assert_eq!(redacted_root_label("/", None, None), "workspace");
    assert!(trailing_path_components_label("/", 2).is_empty());
}

#[test]
fn redacted_relative_label_returns_prefix_for_matching_roots() {
    assert_eq!(redacted_relative_label(Some("/tmp/x"), "/tmp/x", ".").as_deref(), Some("."));
    assert_eq!(redacted_relative_label(Some("/tmp/x"), "/tmp/y", "."), None);
    assert_eq!(redacted_relative_label(None, "/tmp/x", "."), None);
}

#[test]
fn validation_snapshot_maps_warning_issues() {
    let snapshot = validation_snapshot(CheckResult {
        workspace_root: "/repo".to_string(),
        definition_counts: DefinitionCounts::default(),
        trace_summary: TraceSummary::default(),
        issues: vec![ValidationIssue::warning(
            "SYU-graph-orphan-001",
            "policy".to_string(),
            None,
            "warning message".to_string(),
            Some("warning suggestion".to_string()),
        )],
        referenced_rules: Vec::new(),
    });

    assert_eq!(snapshot.issues.len(), 1);
    assert_eq!(snapshot.issues[0].severity, Severity::Warning);
    assert_eq!(snapshot.issues[0].message, "warning message");
}

#[test]
fn normalized_trace_snapshot_path_rejects_non_relative_inputs() {
    assert_eq!(normalized_trace_snapshot_path(""), None);
    assert_eq!(normalized_trace_snapshot_path("../src/lib.rs"), None);
    assert_eq!(normalized_trace_snapshot_path("/tmp/src/lib.rs"), None);
    assert_eq!(normalized_trace_snapshot_path("src\\lib.rs"), Some("src/lib.rs".to_string()));
}

#[test]
fn non_loopback_warning_lines_skip_loopback_addresses() {
    assert!(non_loopback_warning_lines("127.0.0.1", true).is_empty());
    assert!(non_loopback_warning_lines("::1", true).is_empty());
}

#[test]
fn startup_lines_keep_ready_messages_on_stdout() {
    assert_eq!(
        startup_lines("0.0.0.0:4123"),
        vec![
            "syu app listening on http://0.0.0.0:4123".to_string(),
            "syu app ready: http://0.0.0.0:4123".to_string(),
            "Open http://0.0.0.0:4123 in your browser.".to_string(),
            "Press Ctrl-C to stop.".to_string(),
        ]
    );
}

#[test]
fn non_loopback_warning_lines_emit_stdout_warnings_before_ready_messages() {
    assert_eq!(
        non_loopback_warning_lines("0.0.0.0", false),
        vec![
            "warning: syu app is bound to 0.0.0.0, so workspace data and source documents may be reachable from other machines on your network.".to_string(),
            "warning: use --bind 127.0.0.1 to keep the browser UI local to this machine.".to_string(),
        ]
    );
}

#[test]
fn require_remote_bind_opt_in_allows_loopback_without_flag() {
    require_remote_bind_opt_in("127.0.0.1", true, false).expect("loopback should stay allowed");
}

#[test]
fn require_remote_bind_opt_in_rejects_non_loopback_without_flag() {
    let message = require_remote_bind_opt_in("0.0.0.0", false, false)
        .expect_err("non-loopback should require explicit opt-in");
    assert!(message.contains("--allow-remote"));
    assert!(message.contains("127.0.0.1"));
    assert!(message.contains("accidental network exposure"));
}

#[test]
fn require_remote_bind_opt_in_allows_non_loopback_with_flag() {
    require_remote_bind_opt_in("0.0.0.0", false, true).expect("explicit opt-in should allow non-loopback binds");
}

#[test]
fn bind_failure_message_mentions_port_retries_for_addr_in_use() {
    let message = bind_failure_message("tests/fixtures/workspaces/passing", "127.0.0.1", 3000, true, "address in use");
    assert!(message.contains("failed to bind `127.0.0.1:3000`"));
    assert!(message.contains("selected port is likely already in use"));
    assert!(message.contains("syu app tests/fixtures/workspaces/passing --port <free-port>"));
    assert!(message.contains("app.port"));
}

#[test]
fn bind_failure_message_covers_non_addr_in_use_errors() {
    let message = bind_failure_message("tests/fixtures/workspaces/passing", "127.0.0.1", 3000, false, "unavailable");
    assert!(message.contains("address or port may be unavailable on this machine"));
}

fn source(section: SectionKind, path: &str, content: &str) -> SourceDocument {
    SourceDocument { section, path: path.to_string(), content: content.to_string() }
}

fn payload(root: &str) -> AppPayload {
    AppPayload {
        workspace_root: root.to_string(),
        spec_root: format!("{root}/docs/syu"),
        source_documents: Vec::new(),
        validation: ValidationSnapshot {
            definition_counts: DefinitionCounts::default(),
            trace_summary: TraceSummary::default(),
            issues: Vec::new(),
            referenced_rules: Vec::new(),
        },
    }
}

#[test]
fn source_documents_sort_by_section_name_then_path() {
    let sorted = sort_source_documents(vec![
        source(SectionKind::Requirements, "core/b.yaml", "1"),
        source(SectionKind::Features, "z.yaml", "2"),
        source(SectionKind::Requirements, "core/a.yaml", "3"),
        source(SectionKind::Philosophy, "foundation.yaml", "4"),
        source(SectionKind::Features, "z.yaml", "5"),
        source(SectionKind::Policies, "policies.yaml", "6"),
    ]);
    let order: Vec<(&str, &str)> = sorted.iter().map(|d| (d.path.as_str(), d.content.as_str())).collect();
    assert_eq!(
        order,
        vec![
            ("z.yaml", "2"),
            ("z.yaml", "5"),
            ("foundation.yaml", "4"),
            ("policies.yaml", "6"),
            ("core/a.yaml", "3"),
            ("core/b.yaml", "1"),
        ]
    );
}

#[test]
fn app_state_starts_without_data() {
    let state = AppState::new("/ws".to_string());
    assert_eq!(state.current_data().unwrap_err(), "app data refresh failed");
    assert!(state.current_snapshot().is_none());
}

#[test]
fn app_state_rebuilds_only_when_the_snapshot_changes() {
    let mut state = AppState::new("/ws".to_string());
    assert_eq!(state.begin_refresh(Ok("aaaa".to_string())), Ok(Some("aaaa".to_string())));
    assert_eq!(state.finish_refresh("aaaa".to_string(), Ok(payload("/ws"))), Ok(()));
    assert_eq!(state.current_snapshot().as_deref(), Some("aaaa"));
    assert_eq!(state.current_data().expect("data").payload.workspace_root, "/ws");
    assert_eq!(state.begin_refresh(Ok("aaaa".to_string())), Ok(None));
    assert_eq!(state.begin_refresh(Ok("bbbb".to_string())), Ok(Some("bbbb".to_string())));
    assert_eq!(state.current_snapshot().as_deref(), Some("aaaa"));
}

#[test]
fn app_state_holds_refresh_failures() {
    let mut state = AppState::new("/ws".to_string());
    state.finish_refresh("aaaa".to_string(), Ok(payload("/ws"))).expect("ready");
    assert_eq!(state.begin_refresh(Err("spec root missing".to_string())), Err("spec root missing".to_string()));
    assert!(matches!(state.current, CurrentAppState::Error(ref m) if m == "spec root missing"));
    assert_eq!(state.finish_refresh("cccc".to_string(), Err("bad yaml".to_string())), Err("bad yaml".to_string()));
    assert_eq!(state.current_data().unwrap_err(), "bad yaml");
    assert_eq!(state.replace_current(CurrentAppState::Error("x".to_string())), Err("x".to_string()));
}

/// One refresh as the server runs it: the snapshot first, the payload only
/// when the snapshot changed.
fn refresh_with(
    state: &mut AppState,
    load_snapshot: impl FnOnce() -> Result<String, String>,
    load_payload: impl FnOnce() -> Result<AppPayload, String>,
) -> Result<(), String> {
    match state.begin_refresh(load_snapshot())? {
        None => Ok(()),
        Some(snapshot) => state.finish_refresh(snapshot, load_payload()),
    }
}

fn failing_payload() -> Result<AppPayload, String> {
    Err("payload load failed".to_string())
}

#[test]
fn refresh_current_skips_payload_reload_when_snapshot_is_unchanged() {
    let mut state = AppState::new("/tmp/ws".to_string());
    let mut payload_loads = 0;
    refresh_with(&mut state, || Ok("same-snapshot".to_string()), || {
        payload_loads += 1;
        Ok(payload("/tmp/ws"))
    })
    .expect("initial refresh should succeed");
    refresh_with(&mut state, || Ok("same-snapshot".to_string()), failing_payload)
        .expect("unchanged snapshots should not rebuild the payload");
    assert_eq!(payload_loads, 1, "payloads should only load once when the snapshot does not change");
    assert_eq!(state.current_data().expect("ready state").snapshot, "same-snapshot");
}

#[test]
fn refresh_current_enters_error_state_when_payload_reload_fails() {
    let mut state = AppState::new("/tmp/ws".to_string());
    let error = refresh_with(&mut state, || Ok("updated-snapshot".to_string()), failing_payload)
        .expect_err("payload failures should propagate");
    assert!(error.contains("payload load failed"));
    assert!(state.current_data().expect_err("failed payload reloads should leave the app in an error state").contains("payload load failed"));
}
