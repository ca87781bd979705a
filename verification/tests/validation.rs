use syu::browser::{DefinitionCounts, ReferencedRule, Severity, TraceCount, TraceSummary, ValidationIssue};
use syu::check::{
    collect_check_result, describe_trace_reference, filter_check_result, format_reference_location, validate_duplicate_links,
    validate_duplicate_trace_references, validate_feature, validate_non_empty_field, validate_philosophy, validate_policy,
    validate_requirement, validate_unique_ids, verify_trace_reference, FilteredIssueView, IssueFilters, TraceProbe, TraceRole,
};
use syu::cli::{ValidationGenreFilter, ValidationSeverityFilter};
use syu::model::{CheckResult, Feature, Philosophy, Policy, Requirement, TraceGroup, TraceReference, ValidateConfig};
use syu::report::render_text_report;
use syu::rules::referenced_rules;

fn philosophy(id: &str) -> Philosophy {
    Philosophy {
        id: id.to_string(),
        title: "Title".to_string(),
        product_design_principle: "Principle".to_string(),
        coding_guideline: "Guideline".to_string(),
        linked_policies: Vec::new(),
    }
}

fn policy(id: &str) -> Policy {
    Policy {
        id: id.to_string(),
        title: "Title".to_string(),
        summary: "Summary".to_string(),
        description: "Description".to_string(),
        linked_philosophies: Vec::new(),
        linked_requirements: Vec::new(),
    }
}

fn requirement(id: &str) -> Requirement {
    Requirement {
        id: id.to_string(),
        title: "Title".to_string(),
        description: "Description".to_string(),
        priority: "high".to_string(),
        status: "implemented".to_string(),
        linked_policies: Vec::new(),
        linked_features: Vec::new(),
        tests: Vec::new(),
    }
}

fn feature(id: &str) -> Feature {
    Feature {
        id: id.to_string(),
        title: "Title".to_string(),
        summary: "Summary".to_string(),
        status: "implemented".to_string(),
        linked_requirements: Vec::new(),
        implementations: Vec::new(),
    }
}

fn rule(genre: &str, code: &str, severity: &str, title: &str) -> ReferencedRule {
    ReferencedRule {
        genre: genre.to_string(),
        code: code.to_string(),
        severity: severity.to_string(),
        title: title.to_string(),
        summary: "Summary  text.".to_string(),
        description: "Description\n text.".to_string(),
    }
}

fn catalog() -> Vec<ReferencedRule> {
    vec![
        rule("graph", "SYU-graph-links-001", "warning", "Definitions should link to adjacent layers"),
        rule("trace", "SYU-trace-file-001", "error", "Traced files must exist"),
    ]
}

fn empty_result(issues: Vec<ValidationIssue>) -> CheckResult {
    CheckResult {
        workspace_root: ".".to_string(),
        definition_counts: DefinitionCounts::default(),
        trace_summary: TraceSummary::default(),
        issues,
        referenced_rules: Vec::new(),
    }
}

/// What the file system reports for a reference in a language without an adapter.
fn unsupported_probe(symbols: usize) -> TraceProbe {
    TraceProbe {
        language_supported: false,
        adapter_name: String::new(),
        is_file: false,
        extension_matches: false,
        contents: Err("not read".to_string()),
        symbols: (0..symbols)
            .map(|_| syu::check::SymbolProbe { inspection: syu::check::Inspection::Absent, pattern_match: false })
            .collect(),
    }
}

fn has_code(issues: &[ValidationIssue], code: &str) -> bool {
    issues.iter().any(|issue| issue.code == code)
}

#[test]
fn collect_check_result_reports_load_errors() {
    let result = collect_check_result(
        "/definitely/missing-syu-workspace",
        Err("failed to load workspace".to_string()),
        &catalog(),
    );
    assert!(!result.is_success());
    assert_eq!(result.issues[0].code, "SYU-workspace-load-001");
}

#[test]
fn render_text_report_lists_issues() {
    let result = empty_result(vec![ValidationIssue::warning(
        "warn",
        "subject".to_string(),
        None,
        "message".to_string(),
        None,
    )]);

    let report = render_text_report(true, &result, None, &Vec::new());
    assert!(report.contains("syu validate passed"));
    assert!(report.contains("issues:"));
    assert!(report.contains("[Warning] warn subject: message"));
}

#[test]
fn filter_check_result_scopes_visible_issues() {
    let issues = vec![
        ValidationIssue::warning("SYU-graph-links-001", "subject".to_string(), None, "message".to_string(), None),
        ValidationIssue::error("SYU-trace-file-001", "subject".to_string(), None, "message".to_string(), None),
    ];
    let rules = referenced_rules(&issues, &catalog());
    let result = CheckResult {
        workspace_root: ".".to_string(),
        definition_counts: DefinitionCounts::default(),
        trace_summary: TraceSummary::default(),
        referenced_rules: rules,
        issues,
    };
    let filters = IssueFilters {
        severities: vec![ValidationSeverityFilter::Warning],
        genres: vec![ValidationGenreFilter::Graph],
        rules: Vec::new(),
    };

    let (filtered, filtered_view) = filter_check_result(result, &filters, &catalog());

    assert_eq!(filtered.issues.len(), 1);
    assert_eq!(filtered.issues[0].code, "SYU-graph-links-001");
    assert_eq!(filtered.referenced_rules.len(), 1);
    assert_eq!(filtered.referenced_rules[0].code, "SYU-graph-links-001");
    let filtered_view = filtered_view.expect("filters should produce filtered metadata");
    assert_eq!(filtered_view.displayed_issue_count, 1);
    assert_eq!(filtered_view.total_issue_count, 2);
    assert_eq!(filtered_view.hidden_issue_count, 1);
}

#[test]
fn render_text_report_explains_filtered_views_without_matches() {
    let result = empty_result(Vec::new());
    let filtered_view = FilteredIssueView {
        severities: vec!["warning".to_string()],
        genres: Vec::new(),
        rules: Vec::new(),
        displayed_issue_count: 0,
        total_issue_count: 2,
        hidden_issue_count: 2,
    };

    let report = render_text_report(false, &result, Some(&filtered_view), &Vec::new());

    assert!(report.contains("syu validate failed (filtered view)"));
    assert!(report.contains("filters: severity=warning"));
    assert!(report.contains("showing 0 of 2 issues after filtering"));
    assert!(report.contains("no issues matched the active filters."));
}

#[test]
fn filtered_issue_view_describes_genre_filters() {
    let filtered_view = FilteredIssueView {
        severities: Vec::new(),
        genres: vec!["trace".to_string()],
        rules: Vec::new(),
        displayed_issue_count: 1,
        total_issue_count: 1,
        hidden_issue_count: 0,
    };

    assert_eq!(filtered_view.describe_filters(), "genre=trace");
}

#[test]
fn validate_unique_ids_reports_duplicates() {
    let mut issues = Vec::new();
    validate_unique_ids("feature", &vec!["FEAT-1".to_string(), "FEAT-1".to_string()], &mut issues);
    assert_eq!(issues.len(), 1);
    assert_eq!(issues[0].code, "SYU-workspace-duplicate-001");
}

#[test]
fn validate_duplicate_links_reports_repeated_relationships() {
    let mut issues = Vec::new();
    validate_duplicate_links(
        "requirement",
        "REQ-1",
        "linked_features",
        "feature",
        &vec!["FEAT-1".to_string(), "FEAT-1".to_string()],
        &mut issues,
    );

    assert_eq!(issues.len(), 1);
    assert_eq!(issues[0].code, "SYU-graph-duplicate-001");
    assert_eq!(issues[0].location.as_deref(), Some("linked_features"));
    assert!(issues[0].message.contains("linked feature `FEAT-1`"));
}

fn trace_ref(file: &str, symbols: &[&str], doc_contains: &[&str]) -> TraceReference {
    TraceReference {
        file: file.to_string(),
        symbols: symbols.iter().map(|s| s.to_string()).collect(),
        doc_contains: doc_contains.iter().map(|s| s.to_string()).collect(),
    }
}

#[test]
fn validate_duplicate_trace_references_reports_exact_entries() {
    let mut issues = Vec::new();
    let references = vec![
        trace_ref("src/lib.rs", &["trace_symbol"], &["REQ-1"]),
        trace_ref("src/lib.rs", &["trace_symbol"], &["REQ-1"]),
    ];

    validate_duplicate_trace_references("REQ-1", TraceRole::RequirementTest, "rust", &references, &mut issues);

    assert_eq!(issues.len(), 1);
    assert_eq!(issues[0].code, "SYU-trace-duplicate-001");
    assert_eq!(issues[0].location.as_deref(), Some("rust:src/lib.rs"));
    assert!(issues[0].message.contains("file=`src/lib.rs`"));
    assert!(issues[0].message.contains("symbols=[`trace_symbol`]"));
    assert_eq!(
        describe_trace_reference(&references[0]),
        "file=`src/lib.rs` symbols=[`trace_symbol`] doc_contains=[`REQ-1`]"
    );
}

#[test]
fn validate_non_empty_field_reports_blank_values() {
    let mut issues = Vec::new();
    validate_non_empty_field("feature", "title", "   ", &mut issues);
    assert_eq!(issues.len(), 1);
    assert_eq!(issues[0].code, "SYU-workspace-blank-001");
    assert_eq!(issues[0].location.as_deref(), Some("title"));
}

#[test]
fn validate_philosophy_reports_blank_and_reference_errors() {
    let mut entry = philosophy("PHIL-1");
    entry.title.clear();
    entry.linked_policies.push("POL-1".to_string());

    let mut issues = Vec::new();
    validate_philosophy(&entry, &Vec::new(), &mut issues);

    assert!(has_code(&issues, "SYU-workspace-blank-001"));
    assert!(has_code(&issues, "SYU-graph-reference-001"));
}

#[test]
fn validate_philosophy_warns_when_unlinked() {
    let entry = philosophy("PHIL-1");
    let mut issues = Vec::new();
    validate_philosophy(&entry, &Vec::new(), &mut issues);
    assert!(has_code(&issues, "SYU-graph-links-001"));
}

#[test]
fn validate_philosophy_reports_missing_backlink() {
    let mut entry = philosophy("PHIL-1");
    entry.linked_policies.push("POL-1".to_string());

    let mut linked_policy = policy("POL-1");
    linked_policy.linked_philosophies.clear();

    let mut issues = Vec::new();
    validate_philosophy(&entry, &vec![linked_policy], &mut issues);
    assert!(has_code(&issues, "SYU-graph-reciprocal-001"));
}

#[test]
fn validate_policy_reports_reference_and_backlink_errors() {
    let mut entry = policy("POL-1");
    entry.summary.clear();
    entry.linked_philosophies.push("PHIL-1".to_string());
    entry.linked_requirements.push("REQ-1".to_string());

    let mut issues = Vec::new();
    validate_policy(&entry, &vec![philosophy("PHIL-1")], &vec![requirement("REQ-1")], &mut issues);

    assert!(has_code(&issues, "SYU-workspace-blank-001"));
    assert!(issues.iter().filter(|issue| issue.code == "SYU-graph-reciprocal-001").count() >= 2);
}

#[test]
fn validate_policy_warns_when_unlinked() {
    let entry = policy("POL-1");
    let mut issues = Vec::new();
    validate_policy(&entry, &Vec::new(), &Vec::new(), &mut issues);
    assert!(issues.iter().filter(|issue| issue.code == "SYU-graph-links-001").count() >= 2);
}

#[test]
fn validate_policy_reports_missing_reference_errors() {
    let mut entry = policy("POL-1");
    entry.linked_philosophies.push("PHIL-MISSING".to_string());
    entry.linked_requirements.push("REQ-MISSING".to_string());

    let mut issues = Vec::new();
    validate_policy(&entry, &Vec::new(), &Vec::new(), &mut issues);

    assert!(issues
        .iter()
        .any(|issue| issue.code == "SYU-graph-reference-001" && issue.location.as_deref() == Some("PHIL-MISSING")));
    assert!(issues
        .iter()
        .any(|issue| issue.code == "SYU-graph-reference-001" && issue.location.as_deref() == Some("REQ-MISSING")));
}

fn run_requirement(entry: &Requirement, policies: &Vec<Policy>, features: &Vec<Feature>, config: &ValidateConfig) -> (Vec<ValidationIssue>, TraceCount) {
    let probes: Vec<Vec<TraceProbe>> = entry
        .tests
        .iter()
        .map(|group| group.references.iter().map(|r| unsupported_probe(r.symbols.len())).collect())
        .collect();
    let mut issues = Vec::new();
    let mut trace_count = TraceCount::default();
    validate_requirement(entry, policies, features, config, &probes, &mut issues, &mut trace_count);
    (issues, trace_count)
}

fn run_feature(entry: &Feature, requirements: &Vec<Requirement>, config: &ValidateConfig) -> (Vec<ValidationIssue>, TraceCount) {
    let probes: Vec<Vec<TraceProbe>> = entry
        .implementations
        .iter()
        .map(|group| group.references.iter().map(|r| unsupported_probe(r.symbols.len())).collect())
        .collect();
    let mut issues = Vec::new();
    let mut trace_count = TraceCount::default();
    validate_feature(entry, requirements, config, &probes, &mut issues, &mut trace_count);
    (issues, trace_count)
}

#[test]
fn validate_requirement_reports_missing_trace_and_links() {
    let mut entry = requirement("REQ-1");
    entry.status.clear();

    let (issues, trace_count) = run_requirement(&entry, &Vec::new(), &Vec::new(), &ValidateConfig::default_settings());

    assert!(has_code(&issues, "SYU-workspace-blank-001"));
    assert!(has_code(&issues, "SYU-graph-links-001"));
    assert!(has_code(&issues, "SYU-delivery-missing-001"));
    assert_eq!(trace_count.declared, 0);
}

#[test]
fn validate_requirement_reports_missing_and_backlink_errors() {
    let mut entry = requirement("REQ-1");
    entry.linked_policies = vec!["POL-1".to_string(), "POL-MISSING".to_string()];
    entry.linked_features = vec!["FEAT-1".to_string(), "FEAT-MISSING".to_string()];

    let (issues, _) = run_requirement(&entry, &vec![policy("POL-1")], &vec![feature("FEAT-1")], &ValidateConfig::default_settings());

    assert!(issues
        .iter()
        .any(|issue| issue.code == "SYU-graph-reciprocal-001" && issue.location.as_deref() == Some("POL-1")));
    assert!(issues
        .iter()
        .any(|issue| issue.code == "SYU-graph-reference-001" && issue.location.as_deref() == Some("POL-MISSING")));
    assert!(issues
        .iter()
        .any(|issue| issue.code == "SYU-graph-reciprocal-001" && issue.location.as_deref() == Some("FEAT-1")));
    assert!(issues
        .iter()
        .any(|issue| issue.code == "SYU-graph-reference-001" && issue.location.as_deref() == Some("FEAT-MISSING")));
}

#[test]
fn validate_feature_reports_missing_trace_and_links() {
    let mut entry = feature("FEAT-1");
    entry.summary.clear();

    let (issues, trace_count) = run_feature(&entry, &Vec::new(), &ValidateConfig::default_settings());

    assert!(has_code(&issues, "SYU-workspace-blank-001"));
    assert!(has_code(&issues, "SYU-graph-links-001"));
    assert!(has_code(&issues, "SYU-delivery-implemented-001"));
    assert_eq!(trace_count.validated, 0);
}

#[test]
fn validate_requirement_rejects_traces_when_planned() {
    let mut entry = requirement("REQ-1");
    entry.status = "planned".to_string();
    entry.tests.push(TraceGroup { language: "rust".to_string(), references: vec![trace_ref("src/lib.rs", &["trace"], &[])] });

    let (issues, trace_count) = run_requirement(&entry, &Vec::new(), &Vec::new(), &ValidateConfig::default_settings());

    assert!(has_code(&issues, "SYU-delivery-planned-002"));
    assert_eq!(trace_count.declared, 0);
}

#[test]
fn validate_requirement_rejects_invalid_status_values() {
    let mut entry = requirement("REQ-1");
    entry.status = "proposed".to_string();

    let (issues, _) = run_requirement(&entry, &Vec::new(), &Vec::new(), &ValidateConfig::default_settings());

    assert!(has_code(&issues, "SYU-delivery-invalid-001"));
}

#[test]
fn validate_requirement_warns_when_planned_links_to_implemented_features() {
    let mut entry = requirement("REQ-1");
    entry.status = "planned".to_string();
    entry.linked_features = vec!["FEAT-1".to_string(), "FEAT-2".to_string()];

    let linked_feature_one = feature("FEAT-1");
    let mut linked_feature_two = feature("FEAT-2");
    linked_feature_two.status = "planned".to_string();

    let (issues, _) = run_requirement(
        &entry,
        &Vec::new(),
        &vec![linked_feature_one, linked_feature_two],
        &ValidateConfig::default_settings(),
    );

    let agreement = issues
        .iter()
        .find(|issue| issue.code == "SYU-delivery-agreement-001")
        .expect("agreement warning");
    assert!(agreement.message.contains("implemented features"));
    assert!(agreement.message.contains("`FEAT-1`"));
    assert!(!agreement.message.contains("`FEAT-2`"));
}

#[test]
fn validate_requirement_ignores_linked_features_with_unknown_delivery_state() {
    let mut entry = requirement("REQ-1");
    entry.status = "planned".to_string();
    entry.linked_features = vec!["FEAT-1".to_string()];

    let mut linked_feature = feature("FEAT-1");
    linked_feature.status = "proposed".to_string();

    let (issues, _) = run_requirement(&entry, &Vec::new(), &vec![linked_feature], &ValidateConfig::default_settings());

    assert!(!has_code(&issues, "SYU-delivery-agreement-001"));
}

#[test]
fn validate_requirement_with_invalid_status_and_traces_still_checks_references() {
    let mut entry = requirement("REQ-1");
    entry.status = "proposed".to_string();
    entry.tests.push(TraceGroup { language: "go".to_string(), references: vec![trace_ref("trace.go", &["trace"], &[])] });

    let (issues, trace_count) = run_requirement(&entry, &Vec::new(), &Vec::new(), &ValidateConfig::default_settings());

    assert!(has_code(&issues, "SYU-delivery-invalid-001"));
    assert!(has_code(&issues, "SYU-trace-language-001"));
    assert_eq!(trace_count.declared, 1);
}

#[test]
fn validate_feature_rejects_planned_status_when_disallowed() {
    let mut entry = feature("FEAT-1");
    entry.status = "planed".to_string();

    let mut config = ValidateConfig::default_settings();
    config.allow_planned = false;

    let (issues, _) = run_feature(&entry, &Vec::new(), &config);

    assert!(has_code(&issues, "SYU-delivery-planned-001"));
}

#[test]
fn validate_feature_warns_when_implemented_links_only_to_planned_requirements() {
    let mut entry = feature("FEAT-1");
    entry.linked_requirements = vec!["REQ-1".to_string(), "REQ-2".to_string()];

    let mut linked_requirement_one = requirement("REQ-1");
    linked_requirement_one.status = "planned".to_string();
    let mut linked_requirement_two = requirement("REQ-2");
    linked_requirement_two.status = "planned".to_string();

    let (issues, _) = run_feature(
        &entry,
        &vec![linked_requirement_one, linked_requirement_two],
        &ValidateConfig::default_settings(),
    );

    let agreement = issues
        .iter()
        .find(|issue| issue.code == "SYU-delivery-agreement-001")
        .expect("agreement warning");
    assert!(agreement.message.contains("none are implemented"));
    assert!(agreement.message.contains("`REQ-1`"));
    assert!(agreement.message.contains("`REQ-2`"));
}

#[test]
fn validate_feature_skips_delivery_agreement_warning_when_any_requirement_is_implemented() {
    let mut entry = feature("FEAT-1");
    entry.linked_requirements = vec!["REQ-1".to_string(), "REQ-2".to_string()];

    let mut linked_requirement_one = requirement("REQ-1");
    linked_requirement_one.status = "planned".to_string();
    let linked_requirement_two = requirement("REQ-2");

    let (issues, _) = run_feature(
        &entry,
        &vec![linked_requirement_one, linked_requirement_two],
        &ValidateConfig::default_settings(),
    );

    assert!(!has_code(&issues, "SYU-delivery-agreement-001"));
}

#[test]
fn validate_feature_warning_mentions_absence_of_implemented_requirements() {
    let mut entry = feature("FEAT-1");
    entry.linked_requirements = vec!["REQ-1".to_string(), "REQ-2".to_string()];

    let mut linked_requirement_one = requirement("REQ-1");
    linked_requirement_one.status = "planned".to_string();
    let mut linked_requirement_two = requirement("REQ-2");
    linked_requirement_two.status = "proposed".to_string();

    let (issues, _) = run_feature(
        &entry,
        &vec![linked_requirement_one, linked_requirement_two],
        &ValidateConfig::default_settings(),
    );

    let agreement = issues
        .iter()
        .find(|issue| issue.code == "SYU-delivery-agreement-001")
        .expect("agreement warning");
    assert!(agreement.message.contains("none are implemented"));
    assert!(agreement.message.contains("`REQ-1`"));
    assert!(!agreement.message.contains("`REQ-2`"));
}

#[test]
fn validate_feature_reports_missing_and_backlink_errors() {
    let mut entry = feature("FEAT-1");
    entry.linked_requirements = vec!["REQ-1".to_string(), "REQ-MISSING".to_string()];

    let (issues, _) = run_feature(&entry, &vec![requirement("REQ-1")], &ValidateConfig::default_settings());

    assert!(issues
        .iter()
        .any(|issue| issue.code == "SYU-graph-reciprocal-001" && issue.location.as_deref() == Some("REQ-1")));
    assert!(issues
        .iter()
        .any(|issue| issue.code == "SYU-graph-reference-001" && issue.location.as_deref() == Some("REQ-MISSING")));
}

#[test]
fn verify_trace_reference_reports_unsupported_languages() {
    let reference = trace_ref("test.go", &["main"], &[]);
    let mut issues = Vec::new();
    assert!(!verify_trace_reference("REQ-1", TraceRole::RequirementTest, "go", &reference, &unsupported_probe(1), &mut issues));
    assert_eq!(issues[0].code, "SYU-trace-language-001");
}

#[test]
fn reference_locations_include_language_and_path() {
    let reference = trace_ref("src/lib.rs", &["run"], &[]);
    assert_eq!(format_reference_location("rust", &reference), "rust:src/lib.rs");
}

#[test]
fn text_report_lists_referenced_rules_with_collapsed_text() {
    let issues = vec![ValidationIssue::warning(
        "SYU-graph-links-001",
        "philosophy PHIL-1".to_string(),
        Some("linked_policies".to_string()),
        "Philosophy does not link to any policies.".to_string(),
        None,
    )];
    let rules = referenced_rules(&issues, &catalog());
    let mut result = empty_result(issues);
    result.referenced_rules = rules;
    result.definition_counts = DefinitionCounts { philosophies: 1, policies: 2, requirements: 3, features: 4 };
    result.trace_summary = TraceSummary {
        requirement_traces: TraceCount { declared: 5, validated: 4 },
        feature_traces: TraceCount { declared: 0, validated: 0 },
    };

    let report = render_text_report(true, &result, None, &catalog());

    assert_eq!(
        report,
        "syu validate passed\nworkspace: .\ndefinitions: philosophies=1 policies=2 requirements=3 features=4\ntraceability: requirements=4/5 features=0/0\n\nissues:\n- [Warning] SYU-graph-links-001 (Definitions should link to adjacent layers) philosophy PHIL-1 (linked_policies): Philosophy does not link to any policies.\n  rule: graph / SYU-graph-links-001 / Definitions should link to adjacent layers\n\nreferenced rules:\n- [warning] SYU-graph-links-001 (graph)\n  title: Definitions should link to adjacent layers\n  summary: Summary text.\n  description: Description text.\n"
    );
}

#[test]
fn load_error_result_names_the_workspace() {
    let result = CheckResult::from_load_error("/repo".to_string(), "missing syu.yaml".to_string());
    assert_eq!(result.issues.len(), 1);
    assert_eq!(result.issues[0].severity, Severity::Error);
    assert_eq!(result.issues[0].location.as_deref(), Some("/repo"));
    assert_eq!(result.issues[0].message, "missing syu.yaml");
    assert!(!result.is_success());
}

fn missing_file_probe(symbols: usize) -> TraceProbe {
    TraceProbe {
        language_supported: true,
        adapter_name: "rust".to_string(),
        is_file: false,
        extension_matches: true,
        contents: Err("not read".to_string()),
        symbols: (0..symbols)
            .map(|_| syu::check::SymbolProbe { inspection: syu::check::Inspection::Absent, pattern_match: false })
            .collect(),
    }
}

#[test]
fn verify_trace_reference_reports_missing_file_path() {
    let reference = TraceReference { file: String::new(), symbols: vec!["main".to_string()], doc_contains: Vec::new() };
    let mut issues = Vec::new();
    assert!(!verify_trace_reference("REQ-1", TraceRole::RequirementTest, "rust", &reference, &missing_file_probe(1), &mut issues));
    assert_eq!(issues[0].code, "SYU-trace-file-001");
}

#[test]
fn verify_trace_reference_reports_missing_files() {
    let reference = TraceReference { file: "missing.rs".to_string(), symbols: vec!["main".to_string()], doc_contains: Vec::new() };
    let mut issues = Vec::new();
    assert!(!verify_trace_reference("REQ-1", TraceRole::RequirementTest, "rust", &reference, &missing_file_probe(1), &mut issues));
    assert_eq!(issues[0].code, "SYU-trace-file-002");
}

#[test]
fn validate_exit_code_follows_errors_and_the_warning_exit_code() {
    let warning = || ValidationIssue::warning("SYU-test-001", "requirement REQ-1".to_string(), None, "w".to_string(), None);
    let error = || ValidationIssue::error("SYU-test-002", "requirement REQ-1".to_string(), None, "e".to_string(), None);
    assert_eq!(empty_result(Vec::new()).exit_code(Some(3)), 0);
    assert_eq!(empty_result(vec![warning()]).exit_code(None), 0);
    assert_eq!(empty_result(vec![warning()]).exit_code(Some(3)), 3);
    assert_eq!(empty_result(vec![warning(), error()]).exit_code(Some(3)), 1);
    assert!(empty_result(vec![warning()]).has_warnings());
}

#[test]
fn validate_links_answers_each_link_exactly() {
    let targets = vec![
        syu::check::LinkTarget { id: "POL-1".to_string(), backlinks: vec!["REQ-1".to_string()], status: String::new() },
        syu::check::LinkTarget { id: "POL-2".to_string(), backlinks: Vec::new(), status: String::new() },
    ];
    let links = vec!["POL-1".to_string(), "POL-2".to_string(), "POL-3".to_string()];
    let mut issues = Vec::new();
    syu::check::validate_links("requirement", "REQ-1", "policy", "Policy", "linked_requirements", &links, &targets, &mut issues);

    assert_eq!(issues.len(), 2);
    assert_eq!(issues[0].code, "SYU-graph-reciprocal-001");
    assert_eq!(issues[0].location.as_deref(), Some("POL-2"));
    assert_eq!(issues[1].code, "SYU-graph-reference-001");
    assert_eq!(issues[1].location.as_deref(), Some("POL-3"));
}

#[test]
fn trace_probe_reads_adapters_extensions_and_symbols() {
    let probe = syu::language::trace_probe(
        "RS",
        true,
        Some("lib.rs"),
        Some("rs"),
        Ok("pub fn expected() {}\n".to_string()),
        &vec![" expected ".to_string(), "missing".to_string()],
    );
    assert!(probe.language_supported);
    assert_eq!(probe.adapter_name, "rust");
    assert!(probe.extension_matches);
    assert!(probe.symbols[0].pattern_match);
    assert!(!probe.symbols[1].pattern_match);

    let wrong_extension = syu::language::trace_probe("python", true, Some("app.rs"), Some("rs"), Err("unread".to_string()), &vec!["x".to_string()]);
    assert!(!wrong_extension.extension_matches);
    assert!(!wrong_extension.symbols[0].pattern_match);

    let unknown = syu::language::trace_probe("cobol", false, None, None, Err("missing".to_string()), &Vec::new());
    assert!(!unknown.language_supported);
    assert_eq!(unknown.adapter_name, "cobol");
    assert!(!unknown.extension_matches);
}

#[test]
fn gitignore_adapter_matches_by_file_name() {
    let exts: Vec<String> = Vec::new();
    assert!(syu::language::adapter_accepts_file("gitignore", &exts, Some("web.gitignore"), None));
    assert!(!syu::language::adapter_accepts_file("gitignore", &exts, Some("notes.txt"), Some("txt")));
    let (name, extensions) = syu::language::adapter_for_language("JS").expect("javascript is known");
    assert_eq!(name, "typescript");
    assert_eq!(extensions, vec!["ts", "tsx", "js", "jsx", "mjs", "cjs"]);
    assert!(syu::language::adapter_for_language("cobol").is_none());
}

#[test]
fn insert_trace_group_keeps_one_group_per_language_in_order() {
    let group = |language: &str, file: &str| TraceGroup {
        language: language.to_string(),
        references: vec![TraceReference { file: file.to_string(), symbols: Vec::new(), doc_contains: Vec::new() }],
    };
    let mut groups = Vec::new();
    syu::model::insert_trace_group(&mut groups, group("rust", "a.rs"));
    syu::model::insert_trace_group(&mut groups, group("python", "a.py"));
    syu::model::insert_trace_group(&mut groups, group("shell", "a.sh"));
    syu::model::insert_trace_group(&mut groups, group("python", "b.py"));
    let languages: Vec<&str> = groups.iter().map(|g| g.language.as_str()).collect();
    assert_eq!(languages, vec!["python", "rust", "shell"]);
    assert_eq!(groups[0].references[0].file, "b.py");
}
