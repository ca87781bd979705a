use syu::browse::{parse_menu_choice, BrowseState, BrowseView, EntityRef};
use syu::browser::{DefinitionCounts, ReferencedRule, TraceSummary, ValidationIssue};
use syu::check::Workspace;
use syu::cli::LookupKind as EntityKind;
use syu::model::{CheckResult, Feature, Philosophy, Policy, Requirement, TraceGroup, TraceReference, ValidateConfig};

fn strings(items: &[&str]) -> Vec<String> {
    items.iter().map(|item| item.to_string()).collect()
}

fn workspace() -> Workspace {
    Workspace {
        root: ".".to_string(),
        spec_root: "docs/syu".to_string(),
        config: ValidateConfig::default_settings(),
        philosophies: vec![Philosophy {
            id: "PHIL-001".to_string(),
            title: "Philosophy".to_string(),
            product_design_principle: "Principle".to_string(),
            coding_guideline: "Guideline".to_string(),
            linked_policies: strings(&["POL-001"]),
        }],
        policies: vec![Policy {
            id: "POL-001".to_string(),
            title: "Policy".to_string(),
            summary: "Summary".to_string(),
            description: "Description".to_string(),
            linked_philosophies: strings(&["PHIL-001"]),
            linked_requirements: strings(&["REQ-001"]),
        }],
        requirements: vec![Requirement {
            id: "REQ-001".to_string(),
            title: "Requirement".to_string(),
            description: "Description".to_string(),
            priority: "high".to_string(),
            status: "implemented".to_string(),
            linked_policies: strings(&["POL-001"]),
            linked_features: strings(&["FEAT-001", "FEAT-404"]),
            tests: vec![TraceGroup {
                language: "rust".to_string(),
                references: vec![TraceReference {
                    file: "tests/req.rs".to_string(),
                    symbols: strings(&["covers_req", "also"]),
                    doc_contains: Vec::new(),
                }],
            }],
        }],
        features: vec![Feature {
            id: "FEAT-001".to_string(),
            title: "Feature".to_string(),
            summary: "Summary".to_string(),
            status: "implemented".to_string(),
            linked_requirements: strings(&["REQ-001"]),
            implementations: Vec::new(),
        }],
    }
}

fn state(issues: Vec<ValidationIssue>) -> BrowseState {
    BrowseState {
        workspace: Some(workspace()),
        result: CheckResult {
            workspace_root: ".".to_string(),
            definition_counts: DefinitionCounts { philosophies: 1, policies: 1, requirements: 1, features: 1 },
            trace_summary: TraceSummary::default(),
            issues,
            referenced_rules: Vec::new(),
        },
    }
}

#[test]
fn entity_entries_follow_workspace_contents() {
    let state = state(Vec::new());
    assert_eq!(state.entity_entries(EntityKind::Philosophy).len(), 1);
    assert_eq!(state.entity_entries(EntityKind::Policy).len(), 1);
    assert_eq!(state.entity_entries(EntityKind::Requirement).len(), 1);
    assert_eq!(state.entity_entries(EntityKind::Feature).len(), 1);
    assert_eq!(
        state.entity_entries(EntityKind::Policy),
        vec![("POL-001".to_string(), "Policy".to_string())]
    );
}

#[test]
fn browse_helpers_cover_labels_and_entity_lookup() {
    let state = state(Vec::new());

    assert_eq!(EntityKind::Philosophy.label(), "philosophy");
    assert_eq!(EntityKind::Policy.label(), "policy");
    assert_eq!(EntityKind::Feature.label(), "feature");
    assert_eq!(EntityKind::Requirement.label(), "requirement");

    let workspace = state.workspace.as_ref().expect("fixture should load");
    let philosophy_id = workspace.philosophies[0].id.clone();
    let policy_id = workspace.policies[0].id.clone();
    let requirement_id = workspace.requirements[0].id.clone();
    let feature_id = workspace.features[0].id.clone();

    assert!(state.philosophy(&philosophy_id).is_some());
    assert!(state.policy(&policy_id).is_some());
    assert!(state.requirement(&requirement_id).is_some());
    assert!(state.feature(&feature_id).is_some());

    assert!(state.philosophy("PHIL-MISSING").is_none());
    assert!(state.policy("POL-MISSING").is_none());
    assert!(state.requirement("REQ-MISSING").is_none());
    assert!(state.feature("FEAT-MISSING").is_none());
}

#[test]
fn detail_helpers_return_linked_entities_and_handle_missing_items() {
    let state = state(Vec::new());
    for (kind, id) in [
        (EntityKind::Philosophy, "PHIL-001"),
        (EntityKind::Policy, "POL-001"),
        (EntityKind::Requirement, "REQ-001"),
        (EntityKind::Feature, "FEAT-001"),
    ] {
        assert!(!state.detail(kind, id).1.is_empty());
    }
    let (text, links) = state.detail(EntityKind::Philosophy, "PHIL-MISSING");
    assert_eq!(text, "Philosophy `PHIL-MISSING` is not available.\n");
    assert!(links.is_empty());
    assert!(state.detail(EntityKind::Policy, "POL-MISSING").1.is_empty());
    assert!(state.detail(EntityKind::Requirement, "REQ-MISSING").1.is_empty());
    assert!(state.detail(EntityKind::Feature, "FEAT-MISSING").1.is_empty());
}

#[test]
fn requirement_detail_numbers_links_and_lists_traces() {
    let state = state(Vec::new());
    let (text, links) = state.detail(EntityKind::Requirement, "REQ-001");
    assert_eq!(
        text,
        "ID: REQ-001\nTitle: Requirement\nPriority: high\nStatus: implemented\nDescription: Description\nLinked policies:\n1. POL-001 — Policy\nLinked features:\n2. FEAT-001 — Feature\n3. FEAT-404 — missing\nDeclared tests:\n- rust:\n  - tests/req.rs [covers_req, also]\n"
    );
    assert_eq!(links.len(), 3);
    assert_eq!(links[0].kind, EntityKind::Policy);
    assert_eq!(links[2].id, "FEAT-404");
}

#[test]
fn feature_detail_reports_missing_traces_as_none() {
    let state = state(Vec::new());
    let (text, _) = state.detail(EntityKind::Feature, "FEAT-001");
    assert!(text.ends_with("Declared implementations:\n- none\n"));
}

#[test]
fn tree_text_lists_every_layer_and_issue() {
    let state = state(vec![ValidationIssue::error(
        "SYU-graph-reference-001",
        "policy POL-001".to_string(),
        None,
        "broken".to_string(),
        None,
    )]);
    let text = state.tree_text();
    assert!(text.starts_with("\n=== syu spec tree ===\nworkspace: .\nphilosophy=1 policy=1 feature=1 requirement=1 errors=1\n\n"));
    assert!(text.contains("=== policy (1) ===\n  POL-001\tPolicy\n\n"));
    assert!(text.ends_with("=== errors (1) ===\n  [SYU-graph-reference-001] policy POL-001\n\n"));
}

#[test]
fn menu_and_lists_number_their_entries() {
    let state = state(Vec::new());
    assert!(state.menu_text().ends_with("1. philosophy (1)\n2. policy (1)\n3. feature (1)\n4. requirement (1)\n5. errors (0)\n0. exit\n"));
    assert!(state.list_text(EntityKind::Feature).ends_with("1. FEAT-001 — Feature\n0. back\n"));
    let empty = BrowseState { workspace: None, result: state.result };
    assert!(empty.list_text(EntityKind::Feature).ends_with("No feature entries are currently available.\n"));
}

#[test]
fn error_screens_show_rule_details() {
    let state = state(vec![ValidationIssue::warning(
        "SYU-graph-orphan-001",
        "policy POL-001".to_string(),
        Some("docs".to_string()),
        "orphaned".to_string(),
        Some("link it".to_string()),
    )]);
    let catalog = vec![ReferencedRule {
        genre: "graph".to_string(),
        code: "SYU-graph-orphan-001".to_string(),
        severity: "warning".to_string(),
        title: "Orphans".to_string(),
        summary: "Summary".to_string(),
        description: "Long\n   description".to_string(),
    }];
    assert!(state.error_list_text(&catalog).ends_with("1. [Warning] SYU-graph-orphan-001 — Orphans\n0. back\n"));
    assert!(state.error_list_text(&Vec::new()).contains("— Unknown rule"));
    let detail = state.error_detail_text(&catalog, 0);
    assert!(detail.ends_with("Code: SYU-graph-orphan-001\nSeverity: Warning\nSubject: policy POL-001\nLocation: docs\nMessage: orphaned\nSuggestion: link it\nRule genre: graph\nRule title: Orphans\nRule summary: Summary\nRule description: Long description\n"));
}

#[test]
fn menu_choices_accept_numbers_and_quit() {
    assert_eq!(parse_menu_choice(" 3 ", 5), Ok(3));
    assert_eq!(parse_menu_choice("Q", 5), Ok(0));
    assert_eq!(parse_menu_choice("quit", 5), Ok(0));
    assert_eq!(parse_menu_choice("6", 5), Err("Please enter a number between 0 and 5.".to_string()));
    assert!(parse_menu_choice("", 5).is_err());
    assert!(parse_menu_choice("99999999999999999999999", 5).is_err());
}

#[test]
fn navigation_follows_the_selected_entries() {
    let state = state(Vec::new());
    assert!(state.next_view(&BrowseView::Menu, Some(0)).is_none());
    assert!(matches!(state.next_view(&BrowseView::Menu, Some(3)), Some(BrowseView::List(EntityKind::Feature))));
    match state.next_view(&BrowseView::List(EntityKind::Policy), Some(1)) {
        Some(BrowseView::Detail(entity)) => assert_eq!(entity.id, "POL-001"),
        other => panic!("unexpected view {other:?}"),
    }
    let detail = BrowseView::Detail(EntityRef { kind: EntityKind::Policy, id: "POL-001".to_string() });
    match state.next_view(&detail, Some(2)) {
        Some(BrowseView::Detail(entity)) => {
            assert_eq!(entity.kind, EntityKind::Requirement);
            assert_eq!(entity.id, "REQ-001");
        },
        other => panic!("unexpected view {other:?}"),
    }
    assert!(matches!(state.next_view(&detail, None), Some(BrowseView::List(EntityKind::Policy))));
    assert!(matches!(state.next_view(&BrowseView::ErrorDetail(0), None), Some(BrowseView::Errors)));
}
