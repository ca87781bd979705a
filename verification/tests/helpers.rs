use syu::audit::{first_opposing_term_pair, orphaned_policies, overlap_findings, shared_terms, tension_findings, tokenize};
use syu::bundle::{default_wasm_target_dir_from_common_dir, missing_app_dependencies_message, pinned_npm_script};
use syu::check::Workspace;
use syu::model::ValidateConfig;
use syu::cli::LookupKind;
use syu::explain::ExplainAssessment;
use syu::lookup::{find, kind_for_id, search, WorkspaceEntity};
use syu::model::{Feature, Philosophy, Policy, Requirement};
use syu::prompt::{normalize_prompt_response, parse_bool_answer};
use syu::shell::shell_quote_path;

fn strings(items: &[&str]) -> Vec<String> {
    items.iter().map(|item| item.to_string()).collect()
}

fn policy(id: &str) -> Policy {
    Policy {
        id: id.to_string(),
        title: "Policy title".to_string(),
        summary: "Summary field".to_string(),
        description: "Description field".to_string(),
        linked_philosophies: Vec::new(),
        linked_requirements: Vec::new(),
    }
}

fn requirement(id: &str, linked_policies: &[&str]) -> Requirement {
    Requirement {
        id: id.to_string(),
        title: "Requirement title".to_string(),
        description: "Requirement description".to_string(),
        priority: "high".to_string(),
        status: "planned".to_string(),
        linked_policies: strings(linked_policies),
        linked_features: Vec::new(),
        tests: Vec::new(),
    }
}

fn search_workspace() -> Workspace {
    Workspace {
        root: ".".to_string(),
        spec_root: "./docs/syu".to_string(),
        config: ValidateConfig::default_settings(),
        philosophies: vec![Philosophy {
            id: "PHIL-001".to_string(),
            title: "Trace everything".to_string(),
            product_design_principle: "Long-form principle text".to_string(),
            coding_guideline: "Long-form coding text".to_string(),
            linked_policies: Vec::new(),
        }],
        policies: vec![policy("POL-001")],
        requirements: vec![requirement("REQ-001", &[])],
        features: vec![Feature {
            id: "FEAT-001".to_string(),
            title: "Feature title".to_string(),
            summary: "Feature summary".to_string(),
            status: "planned".to_string(),
            linked_requirements: Vec::new(),
            implementations: Vec::new(),
        }],
    }
}

#[test]
fn tokenize_drops_short_and_common_terms() {
    let tokens = tokenize("The terminal should stay explainable and low ceremony.");
    assert!(tokens.contains(&"terminal".to_string()));
    assert!(tokens.contains(&"explainable".to_string()));
    assert!(!tokens.contains(&"the".to_string()));
    assert!(!tokens.contains(&"and".to_string()));
}

#[test]
fn tokenize_returns_each_term_once_in_order() {
    let tokens = tokenize("Review review REVIEW terminal");
    assert_eq!(tokens, strings(&["review", "terminal"]));
}

#[test]
fn detects_opposing_term_pairs() {
    let left = strings(&["manual", "workflow"]);
    let right = strings(&["automatic", "checks"]);
    assert_eq!(first_opposing_term_pair(&left, &right), Some(("manual", "automatic")));
    assert_eq!(first_opposing_term_pair(&right, &left), Some(("automatic", "manual")));
    assert_eq!(first_opposing_term_pair(&left, &left), None);
}

#[test]
fn flags_policies_without_downstream_requirements() {
    let findings = orphaned_policies(&vec![policy("POL-001")], &vec![requirement("REQ-001", &["POL-002"])]);
    assert_eq!(findings, vec![0]);
    let none = orphaned_policies(&vec![policy("POL-002")], &vec![requirement("REQ-001", &["POL-002"])]);
    assert!(none.is_empty());
}

#[test]
fn kind_for_id_recognizes_supported_prefixes() {
    assert!(matches!(kind_for_id("PHIL-001"), Some(LookupKind::Philosophy)));
    assert!(matches!(kind_for_id("POL-001"), Some(LookupKind::Policy)));
    assert!(matches!(kind_for_id("REQ-001"), Some(LookupKind::Requirement)));
    assert!(matches!(kind_for_id("FEAT-001"), Some(LookupKind::Feature)));
    assert!(kind_for_id("UNKNOWN-001").is_none());
}

#[test]
fn search_matches_browser_search_fields_only() {
    let workspace = search_workspace();
    assert_eq!(search(&workspace, "summary", None)[0].id, "POL-001");
    assert_eq!(search(&workspace, "description", None)[0].id, "POL-001");
    assert_eq!(search(&workspace, "feature summary", None)[0].id, "FEAT-001");
    assert!(search(&workspace, "Long-form principle", None).is_empty());
}

#[test]
fn search_can_be_limited_to_one_layer() {
    let workspace = search_workspace();
    let hits = search(&workspace, "  TITLE ", Some(LookupKind::Requirement));
    assert_eq!(hits.len(), 1);
    assert_eq!(hits[0].id, "REQ-001");
    assert_eq!(hits[0].kind, "requirement");
}

#[test]
fn find_uses_the_id_prefix_to_pick_a_layer() {
    let workspace = search_workspace();
    assert_eq!(find(&workspace, "POL-001"), Some(WorkspaceEntity::Policy(0)));
    assert_eq!(find(&workspace, "FEAT-001"), Some(WorkspaceEntity::Feature(0)));
    assert_eq!(find(&workspace, "POL-404"), None);
    assert_eq!(find(&workspace, "NOTE-001"), None);
}

#[test]
fn assessment_labels_stay_stable() {
    assert_eq!(ExplainAssessment::Aligned.label(), "aligned");
    assert_eq!(ExplainAssessment::NeedsAttention.label(), "needs-attention");
}

#[test]
fn shell_quote_path_wraps_empty_paths() {
    assert_eq!(shell_quote_path(""), "''");
}

#[test]
fn shell_quote_path_escapes_special_characters() {
    assert_eq!(shell_quote_path("workspace with 'quotes'"), "'workspace with '\\''quotes'\\'''");
}

#[test]
fn shell_quote_path_keeps_plain_paths() {
    assert_eq!(shell_quote_path("docs/syu-1.0_final"), "docs/syu-1.0_final");
}

#[test]
fn normalize_prompt_response_rejects_eof() {
    let error = normalize_prompt_response(String::new(), 0)
        .expect_err("EOF should abort interactive prompting");
    assert!(error.contains("interactive input closed"));
}

#[test]
fn normalize_prompt_response_preserves_blank_lines_when_input_was_read() {
    let value = normalize_prompt_response("\n".to_string(), 1)
        .expect("blank responses should remain valid prompt answers");
    assert!(value.is_empty());
}

#[test]
fn parse_bool_answer_accepts_common_spellings() {
    assert_eq!(parse_bool_answer("Yes"), Some(true));
    assert_eq!(parse_bool_answer("n"), Some(false));
    assert_eq!(parse_bool_answer("maybe"), None);
}

#[test]
fn default_wasm_target_dir_uses_configured_target_dir_first() {
    assert_eq!(
        default_wasm_target_dir_from_common_dir("/repo/.worktrees/impl", Some("/repo/.git"), Some("/shared/target")),
        "/shared/target"
    );
}

#[test]
fn default_wasm_target_dir_resolves_relative_configured_target_dir_from_manifest_dir() {
    assert_eq!(
        default_wasm_target_dir_from_common_dir("/repo/.worktrees/impl", Some("/repo/.git"), Some("target")),
        "/repo/.worktrees/impl/target"
    );
}

#[test]
fn default_wasm_target_dir_uses_git_common_dir_parent_when_available() {
    assert_eq!(
        default_wasm_target_dir_from_common_dir("/repo/.worktrees/impl", Some("/repo/.git"), None),
        "/repo/target/app-wasm"
    );
}

#[test]
fn default_wasm_target_dir_falls_back_to_manifest_target() {
    assert_eq!(
        default_wasm_target_dir_from_common_dir("/repo/.worktrees/impl", None, None),
        "/repo/.worktrees/impl/target/app-wasm"
    );
}

#[test]
fn missing_app_dependencies_message_guides_fresh_worktrees() {
    let message = missing_app_dependencies_message("11.8.0");
    assert!(message.contains("fresh clone or fresh worktree"));
    assert!(message.contains("Cargo intentionally does not run a networked npm install"));
    assert!(message.contains("scripts/ci/pinned-npm.sh install app"));
    assert!(message.contains("npm --prefix app ci"));
    assert!(message.contains("npm 11.8.0"));
}

#[test]
fn pinned_npm_script_uses_repo_ci_helper() {
    assert_eq!(pinned_npm_script("/repo"), "/repo/scripts/ci/pinned-npm.sh");
}

fn titled_requirement(id: &str, title: &str, description: &str, linked_policies: &[&str]) -> Requirement {
    let mut r = requirement(id, linked_policies);
    r.title = title.to_string();
    r.description = description.to_string();
    r
}

#[test]
fn shared_terms_keep_the_first_lists_order() {
    let left = strings(&["coverage", "reports", "trace"]);
    let right = strings(&["trace", "coverage", "other"]);
    assert_eq!(shared_terms(&left, &right), strings(&["coverage", "trace"]));
}

#[test]
fn overlap_findings_pair_requirements_with_similar_wording() {
    let requirements = vec![
        titled_requirement("REQ-001", "Validate trace coverage quickly", "Trace coverage validation reports", &[]),
        titled_requirement("REQ-002", "Validate trace coverage reports", "", &[]),
        titled_requirement("REQ-003", "Render markdown output", "", &[]),
    ];
    let findings = overlap_findings(&requirements);
    assert_eq!(findings.len(), 1);
    assert_eq!(findings[0].left, 0);
    assert_eq!(findings[0].right, 1);
    assert_eq!(findings[0].shared_terms, strings(&["coverage", "reports", "trace", "validate"]));
    assert_eq!(findings[0].left_terms, 6);
    assert_eq!(findings[0].right_terms, 4);
}

#[test]
fn overlap_findings_need_enough_shared_terms() {
    let requirements = vec![
        titled_requirement("REQ-001", "alpha bravo charlie delta", "echo foxtrot golf hotel", &[]),
        titled_requirement("REQ-002", "alpha bravo charlie", "india juliet kilo lima", &[]),
        titled_requirement("REQ-003", "", "", &[]),
    ];
    assert!(overlap_findings(&requirements).is_empty());
}

#[test]
fn tension_findings_follow_feature_requirement_policy_links() {
    let mut ws = search_workspace();
    ws.features[0].title = "Manual review workflow".to_string();
    ws.features[0].summary = String::new();
    ws.features[0].linked_requirements = strings(&["REQ-001"]);
    ws.requirements = vec![requirement("REQ-001", &["POL-001"])];
    let mut linked = policy("POL-001");
    linked.title = "Automatic checks".to_string();
    linked.summary = String::new();
    linked.description = String::new();
    linked.linked_philosophies = strings(&["PHIL-001"]);
    let mut unlinked = policy("POL-002");
    unlinked.title = "Automatic".to_string();
    ws.policies = vec![linked, unlinked];
    let findings = tension_findings(&ws);
    assert_eq!(findings.len(), 1);
    assert_eq!((findings[0].feature, findings[0].requirement, findings[0].policy), (0, 0, 0));
    assert_eq!(findings[0].related_ids, strings(&["FEAT-001", "REQ-001", "POL-001", "PHIL-001"]));
    assert_eq!(findings[0].feature_term, "manual");
    assert_eq!(findings[0].policy_term, "automatic");
}

#[test]
fn tension_findings_are_empty_without_opposing_words() {
    let mut ws = search_workspace();
    ws.features[0].linked_requirements = strings(&["REQ-001"]);
    ws.requirements = vec![requirement("REQ-001", &["POL-001"])];
    assert!(tension_findings(&ws).is_empty());
}

struct FakePromptIo {
    lines: std::collections::VecDeque<String>,
}

impl syu::prompt::PromptIo for FakePromptIo {
    fn is_terminal(&self) -> bool {
        true
    }

    fn prompt_line(&mut self, _label: &str, _default: Option<&str>) -> Result<String, String> {
        self.lines.pop_front().ok_or_else(|| "stdin closed".to_string())
    }

    fn report(&mut self, _message: &str) {}
}

#[test]
fn prompt_optional_with_default_uses_default_for_blank_lines() {
    let mut prompt_io = FakePromptIo { lines: std::collections::VecDeque::from([String::new()]) };
    assert!(syu::prompt::PromptIo::is_terminal(&prompt_io));
    let value = syu::prompt::prompt_optional_with_default(&mut prompt_io, "Shared ID stem", Some("store"))
        .expect("blank responses should keep the default");
    assert_eq!(value.as_deref(), Some("store"));
}

#[test]
fn document_path_for_id_returns_none_for_unknown_prefixes() {
    let workspace = search_workspace();
    let document_path = syu::lookup::document_path_for_id(&workspace, "UNKNOWN-001", &Vec::new()).expect("unknown prefixes should not error");
    assert!(document_path.is_none());
}

#[test]
fn document_paths_follow_the_layer_entries() {
    let workspace = search_workspace();
    let documents = strings(&["docs/syu/requirements/core.yaml"]);
    assert_eq!(
        syu::lookup::document_path_for_id(&workspace, "REQ-001", &documents),
        Ok(Some("docs/syu/requirements/core.yaml".to_string()))
    );
    assert_eq!(syu::lookup::document_path_for_id(&workspace, "REQ-404", &documents), Ok(None));
    assert_eq!(
        syu::lookup::document_path_for_id(&workspace, "REQ-001", &Vec::new()),
        Err("workspace requirement entries changed while collecting document paths".to_string())
    );
    let with_paths = syu::lookup::entries_with_document_paths(&workspace, LookupKind::Requirement, &documents).expect("one document each");
    assert_eq!(with_paths[0].document_path.as_deref(), Some("docs/syu/requirements/core.yaml"));
}

#[test]
fn prompt_bool_retries_invalid_values_and_accepts_false_aliases() {
    let mut prompt_io = FakePromptIo { lines: std::collections::VecDeque::from(["maybe".to_string(), "no".to_string()]) };
    assert!(syu::prompt::PromptIo::is_terminal(&prompt_io));

    let value = syu::prompt::prompt_bool(&mut prompt_io, "Enable stricter validation defaults now?", true)
        .expect("boolean prompts should retry");

    assert!(!value);
}

#[test]
fn prompt_bool_takes_the_default_for_blank_answers() {
    let mut prompt_io = FakePromptIo { lines: std::collections::VecDeque::from([String::new()]) };
    assert_eq!(syu::prompt::prompt_bool(&mut prompt_io, "Proceed?", true), Ok(true));
}
