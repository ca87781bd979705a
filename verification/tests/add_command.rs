use syu::add::{
    add_follow_up_steps, append_yaml_list_item_text, default_document_path, default_folder_slug, default_title, feature_registry_update,
    format_instruction_list, normalize_definition_id, normalize_feature_kind, render_item_block, render_new_document,
    check_requirement_prefix, display_workspace_path, ensure_target_within_spec_root, resolve_explicit_file, resolve_interactive_file_prompt, resolve_target_path,
    resolve_workspace_and_id, suggested_linked_id, prompt_for_parsed_id, resolve_add_invocation_with_prompt_io, resolve_feature_kind, title_case_slug, AddPromptIo, FeatureRegistryEntry,
    ParsedId,
};
use syu::cli::{AddArgs, LookupKind};
use std::collections::VecDeque;

#[derive(Default)]
struct FakePromptIo {
    terminal: bool,
    lines: VecDeque<String>,
    prompts: Vec<(String, Option<String>)>,
    reports: Vec<String>,
}

impl AddPromptIo for FakePromptIo {
    fn is_terminal(&self) -> bool {
        self.terminal
    }

    fn prompt_line(&mut self, label: &str, default: Option<&str>) -> Result<String, String> {
        self.prompts.push((label.to_string(), default.map(|d| d.to_string())));
        Ok(self.lines.pop_front().unwrap_or_default())
    }

    fn report(&mut self, message: &str) {
        self.reports.push(message.to_string());
    }
}

#[test]
fn normalize_definition_id_enforces_expected_prefixes() {
    assert_eq!(
        normalize_definition_id("req-auth-001", LookupKind::Requirement).expect("requirement ids should normalize"),
        "REQ-AUTH-001"
    );
    assert!(normalize_definition_id("FEAT-AUTH-001", LookupKind::Requirement).is_err());
    assert!(normalize_definition_id("REQ-AUTH", LookupKind::Requirement).is_err());
}

#[test]
fn normalize_definition_id_covers_policy_and_invalid_character_cases() {
    assert_eq!(normalize_definition_id("pol-001", LookupKind::Policy).expect("policy ids should normalize"), "POL-001");
    assert!(normalize_definition_id("POL 001", LookupKind::Policy).is_err());
}

#[test]
fn normalize_definition_id_reports_each_rule() {
    assert_eq!(
        normalize_definition_id(" req--1 ", LookupKind::Requirement).unwrap_err(),
        "requirement IDs must contain only ASCII letters, numbers, and single hyphens: `req--1`"
    );
    assert_eq!(
        normalize_definition_id("FEAT-1", LookupKind::Requirement).unwrap_err(),
        "requirement IDs must start with `REQ-`: `FEAT-1`"
    );
    assert_eq!(
        normalize_definition_id("REQ-AUTH", LookupKind::Requirement).unwrap_err(),
        "requirement IDs must end with a numeric segment like `REQ-001`: `REQ-AUTH`"
    );
}

#[test]
fn parsed_ids_infer_title_folder_and_file_slugs() {
    let parsed = ParsedId::parse(LookupKind::Feature, "FEAT-AUTH-LOGIN-001").expect("feature ids should parse");
    assert_eq!(parsed.typed_prefix, "FEAT-AUTH-LOGIN");
    assert_eq!(parsed.title, "Auth Login");
    assert_eq!(parsed.folder_slug, "auth");
    assert_eq!(parsed.file_slug, "login");
}

#[test]
fn default_document_path_uses_kind_folder_for_features() {
    let parsed = ParsedId::parse(LookupKind::Feature, "FEAT-AUTH-LOGIN-001").expect("feature id");
    assert_eq!(default_document_path(LookupKind::Feature, &parsed, Some("auth")), "features/auth/login.yaml");
}

#[test]
fn helper_defaults_cover_policy_and_feature_layers() {
    let parsed = ParsedId::parse(LookupKind::Policy, "POL-001").expect("policy id");

    assert_eq!(default_document_path(LookupKind::Policy, &parsed, None), "policies/policies.yaml");
    assert_eq!(default_title(LookupKind::Policy), "New policy");
    assert_eq!(default_title(LookupKind::Feature), "New feature");
    assert_eq!(default_folder_slug(LookupKind::Policy), "policies");
}

#[test]
fn normalize_feature_kind_rejects_invalid_values() {
    assert_eq!(normalize_feature_kind("auth-login").expect("valid kind"), "auth-login");
    assert!(normalize_feature_kind("Auth").is_err());
    assert!(normalize_feature_kind("auth login").is_err());
}

#[test]
fn title_case_slug_expands_hyphenated_names() {
    assert_eq!(title_case_slug("auth-login"), "Auth Login");
}

#[test]
fn render_helpers_cover_non_requirement_layers() {
    let philosophy = ParsedId::parse(LookupKind::Philosophy, "PHIL-001").expect("id");
    let policy = ParsedId::parse(LookupKind::Policy, "POL-001").expect("id");
    let feature = ParsedId::parse(LookupKind::Feature, "FEAT-AUTH-LOGIN-001").expect("id");

    assert!(render_new_document(LookupKind::Philosophy, &philosophy, None).contains("category: Philosophy"));
    assert!(render_new_document(LookupKind::Policy, &policy, None).contains("category: Policies"));
    assert!(render_item_block(LookupKind::Policy, &policy).contains("linked_requirements"));
    assert!(render_new_document(LookupKind::Feature, &feature, Some("auth")).contains("category: Auth Features"));
}

#[test]
fn requirement_stub_renders_the_full_document() {
    let parsed = ParsedId::parse(LookupKind::Requirement, "REQ-AUTH-001").expect("id");
    assert_eq!(
        render_new_document(LookupKind::Requirement, &parsed, None),
        "category: Auth Requirements\nprefix: REQ-AUTH\n\nrequirements:\n  - id: REQ-AUTH-001\n    title: Auth\n    description: |\n      Describe the concrete requirement that REQ-AUTH-001 adds to the repository.\n    priority: high\n    status: planned\n    linked_policies: []\n    linked_features: []\n    tests: {}\n"
    );
}

#[test]
fn resolve_interactive_file_prompt_returns_none_for_blank_overrides() {
    let parsed = ParsedId::parse(LookupKind::Feature, "FEAT-AUTH-LOGIN-001").expect("id");
    let mut prompt_io = FakePromptIo { terminal: true, lines: VecDeque::from([String::new()]), ..Default::default() };

    let file = resolve_interactive_file_prompt(
        &AddArgs {
            layer: LookupKind::Feature,
            id: Some(parsed.normalized.clone()),
            workspace: ".".to_string(),
            interactive: true,
            file: None,
            kind: None,
        },
        &parsed,
        Some("auth"),
        &mut prompt_io,
    )
    .expect("file prompts should succeed");

    assert_eq!(file, None);
    assert_eq!(prompt_io.prompts, vec![("YAML file".to_string(), Some("features/auth/login.yaml".to_string()))]);
}

#[test]
fn interactive_file_prompt_requires_a_terminal() {
    let parsed = ParsedId::parse(LookupKind::Requirement, "REQ-AUTH-001").expect("id");
    let mut prompt_io = FakePromptIo::default();
    let error = resolve_interactive_file_prompt(
        &AddArgs {
            layer: LookupKind::Requirement,
            id: None,
            workspace: ".".to_string(),
            interactive: true,
            file: None,
            kind: None,
        },
        &parsed,
        None,
        &mut prompt_io,
    )
    .expect_err("non-terminal prompts should fail");
    assert_eq!(error, "`syu add --interactive` requires a terminal to prompt for a file path");
    assert!(prompt_io.prompts.is_empty());
}

#[test]
fn interactive_workspace_argument_replaces_invalid_ids_that_name_paths() {
    let args = AddArgs {
        layer: LookupKind::Requirement,
        id: Some("workspace-dir".to_string()),
        workspace: ".".to_string(),
        interactive: true,
        file: None,
        kind: None,
    };
    assert_eq!(resolve_workspace_and_id(&args, true), (None, "workspace-dir".to_string()));
    assert_eq!(resolve_workspace_and_id(&args, false), (Some("workspace-dir".to_string()), ".".to_string()));
}

#[test]
fn follow_up_steps_explain_reciprocal_links() {
    let steps = add_follow_up_steps("docs/spec/policies/policies.yaml", "/work space", LookupKind::Policy, "POL-AUTH-001");
    assert_eq!(steps.len(), 5);
    assert_eq!(steps[0], "Edit docs/spec/policies/policies.yaml and fill the stub fields for `POL-AUTH-001`.");
    assert_eq!(
        steps[1],
        "Add at least one `linked_philosophies:` entry and one `linked_requirements:` entry in `POL-AUTH-001`."
    );
    assert_eq!(
        steps[2],
        "If linked philosophy and requirement stubs are still missing, scaffold them with `syu add philosophy PHIL-AUTH-001 '/work space'` and `syu add requirement REQ-AUTH-001 '/work space'`."
    );
    assert_eq!(steps[3], "Update each linked philosophy and requirement so they link back to `POL-AUTH-001`.");
    assert_eq!(steps[4], "Run `syu validate '/work space'` once the reciprocal links are in place.");
}

#[test]
fn instruction_lists_and_linked_ids() {
    assert_eq!(format_instruction_list(&vec!["a".to_string()]), "a");
    assert_eq!(format_instruction_list(&vec!["a".to_string(), "b".to_string(), "c".to_string()]), "a, b and c");
    assert_eq!(suggested_linked_id("REQ-AUTH-001", LookupKind::Feature), "FEAT-AUTH-001");
}

#[test]
fn yaml_items_and_registry_entries_append_after_a_blank_line() {
    assert_eq!(append_yaml_list_item_text("items:\n  - a\n\n\n", "  - b"), "items:\n  - a\n\n  - b\n");
    let entries = vec![FeatureRegistryEntry { kind: "core".to_string(), file: "core\\core.yaml".to_string() }];
    assert_eq!(feature_registry_update("files: []\n", &entries, "core/core.yaml", "core"), Ok(None));
    assert_eq!(
        feature_registry_update("files: []\n", &entries, "core/core.yaml", "auth"),
        Err("feature registry already tracks `core/core.yaml` under kind `core`".to_string())
    );
    assert_eq!(
        feature_registry_update("version: 1\nfiles:\n", &entries, "auth/login.yaml", "auth"),
        Ok(Some("version: 1\nfiles:\n  - kind: auth\n    file: auth/login.yaml\n".to_string()))
    );
}

const ROOT: &str = "/tmp/fixture/workspace";
const SPEC_ROOT: &str = "/tmp/fixture/workspace/docs/spec";

#[test]
fn resolve_explicit_file_accepts_workspace_and_spec_relative_paths() {
    assert_eq!(
        resolve_explicit_file(ROOT, SPEC_ROOT, "docs/spec/features/auth/login.yaml").expect("workspace-relative paths should work"),
        format!("{SPEC_ROOT}/features/auth/login.yaml")
    );
    assert_eq!(
        resolve_explicit_file(ROOT, SPEC_ROOT, "features/auth/login.yaml").expect("spec-relative paths should work"),
        format!("{SPEC_ROOT}/features/auth/login.yaml")
    );
}

#[test]
fn resolve_explicit_file_rejects_absolute_and_invalid_paths() {
    assert!(resolve_explicit_file(ROOT, SPEC_ROOT, "/tmp/escape.yaml").is_err());
    assert!(resolve_explicit_file(ROOT, SPEC_ROOT, "../escape.yaml").is_err());
}

#[test]
fn resolve_explicit_file_reports_each_refusal() {
    assert_eq!(
        resolve_explicit_file(ROOT, SPEC_ROOT, "/tmp/escape.yaml"),
        Err(format!("`--file` must stay inside `{SPEC_ROOT}` as a relative path"))
    );
    assert_eq!(
        resolve_explicit_file(ROOT, SPEC_ROOT, "./."),
        Err("`--file` must stay within the workspace or configured spec root: `./.`".to_string())
    );
    assert_eq!(
        resolve_explicit_file(ROOT, SPEC_ROOT, "features/../../x.yaml"),
        Err("`--file` must stay within the workspace or configured spec root: `features/../../x.yaml`".to_string())
    );
    assert_eq!(
        resolve_explicit_file(ROOT, SPEC_ROOT, "features/./auth//login.yaml"),
        Ok(format!("{SPEC_ROOT}/features/auth/login.yaml"))
    );
}

#[test]
fn ensure_target_within_spec_root_rejects_invalid_targets() {
    assert!(ensure_target_within_spec_root(SPEC_ROOT, LookupKind::Requirement, &format!("{ROOT}/outside.yaml")).is_err());
    assert!(ensure_target_within_spec_root(SPEC_ROOT, LookupKind::Requirement, &format!("{SPEC_ROOT}/requirements/core.txt")).is_err());
    assert!(ensure_target_within_spec_root(SPEC_ROOT, LookupKind::Policy, &format!("{SPEC_ROOT}/requirements/core.yaml")).is_err());
    assert!(ensure_target_within_spec_root(SPEC_ROOT, LookupKind::Policy, &format!("{SPEC_ROOT}/policies/policies.yaml")).is_ok());
}

#[test]
fn ensure_target_within_spec_root_reports_each_refusal() {
    assert_eq!(
        ensure_target_within_spec_root(SPEC_ROOT, LookupKind::Requirement, &format!("{ROOT}/outside.yaml")),
        Err(format!("target path `{ROOT}/outside.yaml` must stay within `{SPEC_ROOT}`"))
    );
    assert_eq!(
        ensure_target_within_spec_root(SPEC_ROOT, LookupKind::Requirement, &format!("{SPEC_ROOT}/requirements/.yaml")),
        Err(format!("target path must point to a YAML document: `{SPEC_ROOT}/requirements/.yaml`"))
    );
    assert_eq!(
        ensure_target_within_spec_root(SPEC_ROOT, LookupKind::Policy, &format!("{SPEC_ROOT}/requirements/core.yml")),
        Err(format!("policy stubs must stay under `{SPEC_ROOT}/policies`"))
    );
    assert_eq!(
        ensure_target_within_spec_root(SPEC_ROOT, LookupKind::Feature, &format!("{SPEC_ROOT}/features//features.yaml")),
        Err("feature stubs must use a feature document path, not `features/features.yaml`".to_string())
    );
    assert!(ensure_target_within_spec_root(SPEC_ROOT, LookupKind::Feature, &format!("{SPEC_ROOT}/features/auth/login.yml")).is_ok());
}

#[test]
fn resolve_target_path_defaults_to_the_layer_document() {
    let parsed = ParsedId::parse(LookupKind::Requirement, "REQ-AUTH-001").expect("id");
    assert_eq!(
        resolve_target_path(ROOT, SPEC_ROOT, LookupKind::Requirement, None, &parsed, None),
        Ok(format!("{SPEC_ROOT}/requirements/auth/auth.yaml"))
    );
    let feature = ParsedId::parse(LookupKind::Feature, "FEAT-AUTH-LOGIN-001").expect("id");
    assert_eq!(
        resolve_target_path(ROOT, SPEC_ROOT, LookupKind::Feature, Some("features/features.yaml"), &feature, Some("auth")),
        Err("feature stubs must use a feature document path, not `features/features.yaml`".to_string())
    );
}

#[test]
fn requirement_documents_must_share_the_typed_prefix() {
    assert!(check_requirement_prefix("docs/spec/requirements/auth/auth.yaml", " REQ-AUTH ", "REQ-AUTH").is_ok());
    assert_eq!(
        check_requirement_prefix("docs/spec/requirements/auth/auth.yaml", "REQ-CORE", "REQ-AUTH"),
        Err("requirement document `docs/spec/requirements/auth/auth.yaml` uses prefix `REQ-CORE`, which does not match `REQ-AUTH`".to_string())
    );
}

#[test]
fn display_workspace_path_strips_the_workspace_root() {
    assert_eq!(display_workspace_path(ROOT, &format!("{SPEC_ROOT}/policies/policies.yaml")), "docs/spec/policies/policies.yaml");
    assert_eq!(display_workspace_path(ROOT, "/elsewhere/file.yaml"), "/elsewhere/file.yaml");
}

#[test]
fn resolve_add_invocation_reports_missing_id_on_non_terminal_streams() {
    let mut prompt_io = FakePromptIo { terminal: false, ..Default::default() };
    let error = match resolve_add_invocation_with_prompt_io(
        &AddArgs {
            layer: LookupKind::Requirement,
            id: None,
            workspace: ".".to_string(),
            interactive: false,
            file: None,
            kind: None,
        },
        false,
        &mut prompt_io,
    ) {
        Ok(_) => panic!("non-terminal add runs should require an explicit ID"),
        Err(error) => error,
    };

    assert!(error.contains("needs a definition ID when stdin/stdout are not terminals"));
    assert!(prompt_io.prompts.is_empty());
}

#[test]
fn prompt_for_parsed_id_retries_blank_and_invalid_values() {
    let mut prompt_io = FakePromptIo {
        terminal: true,
        lines: VecDeque::from([String::new(), "not-an-id".to_string(), "REQ-AUTH-001".to_string()]),
        ..Default::default()
    };

    let parsed = prompt_for_parsed_id(LookupKind::Requirement, &mut prompt_io).expect("prompt succeeds");

    assert_eq!(parsed.normalized, "REQ-AUTH-001");
    assert_eq!(prompt_io.prompts.len(), 3);
    assert!(prompt_io.prompts.iter().all(|(label, default)| label == "Definition ID" && default.is_none()));
}

#[test]
fn resolve_feature_kind_interactive_retries_invalid_values_and_accepts_defaults() {
    let parsed = ParsedId::parse(LookupKind::Feature, "FEAT-AUTH-LOGIN-001").expect("id");
    let mut prompt_io = FakePromptIo { terminal: true, lines: VecDeque::from(["Auth".to_string(), String::new()]), ..Default::default() };

    let kind = resolve_feature_kind(
        &AddArgs {
            layer: LookupKind::Feature,
            id: Some(parsed.normalized.clone()),
            workspace: ".".to_string(),
            interactive: true,
            file: None,
            kind: None,
        },
        &parsed,
        &mut prompt_io,
    )
    .expect("feature kind prompts should recover");

    assert_eq!(kind, "auth");
    assert_eq!(
        prompt_io.prompts,
        vec![("Feature kind".to_string(), Some("auth".to_string())), ("Feature kind".to_string(), Some("auth".to_string()))]
    );
}

#[test]
fn prompt_for_parsed_id_reports_each_refused_answer() {
    let mut prompt_io = FakePromptIo {
        terminal: true,
        lines: VecDeque::from([String::new(), "not-an-id".to_string(), "req-auth-001".to_string()]),
        ..Default::default()
    };

    let parsed = prompt_for_parsed_id(LookupKind::Requirement, &mut prompt_io).expect("prompt succeeds");

    assert_eq!(parsed.normalized, "REQ-AUTH-001");
    assert_eq!(prompt_io.reports.len(), 2);
    assert_eq!(prompt_io.reports[0], "Definition ID is required.");
}

#[test]
fn resolve_add_invocation_uses_explicit_ids_without_prompting() {
    let mut prompt_io = FakePromptIo { terminal: false, ..Default::default() };
    let resolved = resolve_add_invocation_with_prompt_io(
        &AddArgs {
            layer: LookupKind::Feature,
            id: Some("feat-auth-login-001".to_string()),
            workspace: "ws".to_string(),
            interactive: false,
            file: None,
            kind: None,
        },
        false,
        &mut prompt_io,
    )
    .expect("explicit ids need no prompt");

    assert_eq!(resolved.workspace, "ws");
    assert_eq!(resolved.parsed_id.normalized, "FEAT-AUTH-LOGIN-001");
    assert_eq!(resolved.feature_kind.as_deref(), Some("auth"));
    assert_eq!(resolved.file, None);
    assert!(prompt_io.prompts.is_empty());
}
