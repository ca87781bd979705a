use syu::browser::{
    build_browser_workspace, folder_segments, AppPayload, DefinitionCounts, DocumentContent, ReferencedRule, SectionKind, Severity,
    SourceDocument, TraceCount, TraceSummary, ValidationIssue, ValidationSnapshot,
};
use syu::cli::{HistoryKind, LookupKind, StarterTemplate, ValidationGenreFilter, ValidationSeverityFilter};
use syu::model::{Feature, Philosophy, Policy, Requirement, TraceGroup, TraceReference};

fn strings(values: &[&str]) -> Vec<String> {
    values.iter().map(|v| v.to_string()).collect()
}

fn sample_validation() -> ValidationSnapshot {
    ValidationSnapshot {
        definition_counts: DefinitionCounts { philosophies: 1, policies: 1, requirements: 1, features: 1 },
        trace_summary: TraceSummary {
            requirement_traces: TraceCount { declared: 1, validated: 1 },
            feature_traces: TraceCount { declared: 1, validated: 1 },
        },
        issues: vec![ValidationIssue {
            code: "SYU-graph-reference-001".to_string(),
            severity: Severity::Error,
            subject: "requirement".to_string(),
            location: Some("docs/syu/requirements/core.yaml".to_string()),
            message: "broken link".to_string(),
            suggestion: Some("fix the link".to_string()),
        }],
        referenced_rules: vec![ReferencedRule {
            genre: "graph".to_string(),
            code: "SYU-graph-reference-001".to_string(),
            severity: "error".to_string(),
            title: "Linked definitions must exist".to_string(),
            summary: "Missing links break the graph.".to_string(),
            description: "desc".to_string(),
        }],
    }
}

fn source(section: SectionKind, path: &str, content: &str) -> SourceDocument {
    SourceDocument { section, path: path.to_string(), content: content.to_string() }
}

#[test]
fn builds_workspace_and_indexes_items() {
    let sources = vec![
        source(
            SectionKind::Philosophy,
            "foundation.yaml",
            "category: Philosophy\nversion: 1\nphilosophies:\n  - id: PHIL-001\n    title: Stable value\n    product_design_principle: Keep it explainable.\n    coding_guideline: Prefer shared logic.\n    linked_policies:\n      - POL-001\n",
        ),
        source(
            SectionKind::Policies,
            "rules/core.yaml",
            "category: Policies\nversion: 1\nlanguage: en\npolicies:\n  - id: POL-001\n    title: Keep links explicit\n    summary: summary\n    description: description\n    linked_philosophies:\n      - PHIL-001\n    linked_requirements:\n      - REQ-001\n",
        ),
        source(
            SectionKind::Requirements,
            "core.yaml",
            "category: Core\nprefix: REQ\nrequirements:\n  - id: REQ-001\n    title: Browser view\n    description: Show the spec.\n    priority: high\n    status: implemented\n    linked_policies:\n      - POL-001\n    linked_features:\n      - FEAT-001\n    tests:\n      rust:\n        - file: tests/app.rs\n          symbols:\n            - smoke_test\n",
        ),
        source(
            SectionKind::Features,
            "browser/app.yaml",
            "category: App\nversion: 1\nfeatures:\n  - id: FEAT-001\n    title: Browser app\n    summary: Explore layers in the browser.\n    status: implemented\n    linked_requirements:\n      - REQ-001\n    implementations:\n      rust:\n        - file: src/command/app.rs\n          symbols:\n            - run_app_command\n",
        ),
    ];
    // The same documents as read with each section's schema.
    let parsed = vec![
        Ok(DocumentContent::Philosophy {
            category: "Philosophy".to_string(),
            philosophies: vec![Philosophy {
                id: "PHIL-001".to_string(),
                title: "Stable value".to_string(),
                product_design_principle: "Keep it explainable.".to_string(),
                coding_guideline: "Prefer shared logic.".to_string(),
                linked_policies: strings(&["POL-001"]),
            }],
        }),
        Ok(DocumentContent::Policies {
            category: "Policies".to_string(),
            policies: vec![Policy {
                id: "POL-001".to_string(),
                title: "Keep links explicit".to_string(),
                summary: "summary".to_string(),
                description: "description".to_string(),
                linked_philosophies: strings(&["PHIL-001"]),
                linked_requirements: strings(&["REQ-001"]),
            }],
        }),
        Ok(DocumentContent::Requirements {
            category: "Core".to_string(),
            requirements: vec![Requirement {
                id: "REQ-001".to_string(),
                title: "Browser view".to_string(),
                description: "Show the spec.".to_string(),
                priority: "high".to_string(),
                status: "implemented".to_string(),
                linked_policies: strings(&["POL-001"]),
                linked_features: strings(&["FEAT-001"]),
                tests: vec![TraceGroup {
                    language: "rust".to_string(),
                    references: vec![TraceReference {
                        file: "tests/app.rs".to_string(),
                        symbols: strings(&["smoke_test"]),
                        doc_contains: Vec::new(),
                    }],
                }],
            }],
        }),
        Ok(DocumentContent::Features {
            category: "App".to_string(),
            features: vec![Feature {
                id: "FEAT-001".to_string(),
                title: "Browser app".to_string(),
                summary: "Explore layers in the browser.".to_string(),
                status: "implemented".to_string(),
                linked_requirements: strings(&["REQ-001"]),
                implementations: vec![TraceGroup {
                    language: "rust".to_string(),
                    references: vec![TraceReference {
                        file: "src/command/app.rs".to_string(),
                        symbols: strings(&["run_app_command"]),
                        doc_contains: Vec::new(),
                    }],
                }],
            }],
        }),
    ];
    let workspace = build_browser_workspace(
        AppPayload {
            workspace_root: "/repo".to_string(),
            spec_root: "/repo/docs/syu".to_string(),
            source_documents: sources,
            validation: sample_validation(),
        },
        parsed,
    );

    assert_eq!(workspace.sections.len(), 4);
    assert_eq!(workspace.sections[0].documents[0].items[0].id, "PHIL-001");
    assert_eq!(workspace.sections[1].documents[0].folder_segments, vec!["rules".to_string()]);
    assert_eq!(
        workspace.index_entry("FEAT-001").map(|entry| entry.document_path.as_str()),
        Some("browser/app.yaml")
    );
    assert_eq!(workspace.validation.issues.len(), 1);
}

#[test]
fn preserves_parse_errors_for_invalid_documents() {
    let workspace = build_browser_workspace(
        AppPayload {
            workspace_root: "/repo".to_string(),
            spec_root: "/repo/docs/syu".to_string(),
            source_documents: vec![source(SectionKind::Features, "broken.yaml", "category: Broken\nversion: [\n")],
            validation: ValidationSnapshot {
                definition_counts: DefinitionCounts::default(),
                trace_summary: TraceSummary::default(),
                issues: Vec::new(),
                referenced_rules: Vec::new(),
            },
        },
        vec![Err("did not find expected node content at line 3 column 1".to_string())],
    );

    let document = &workspace.sections[2].documents[0];
    assert_eq!(document.path, "broken.yaml");
    assert!(document.parse_error.is_some());
    assert!(document.items.is_empty());
}

#[test]
fn sections_sort_documents_by_path_and_later_ids_win_the_index() {
    let sources = vec![
        source(SectionKind::Policies, "b.yaml", ""),
        source(SectionKind::Policies, "a.yaml", ""),
        source(SectionKind::Philosophy, "nested/deep/x.yml", "x"),
    ];
    let policy = |id: &str, title: &str| Policy {
        id: id.to_string(),
        title: title.to_string(),
        summary: String::new(),
        description: String::new(),
        linked_philosophies: Vec::new(),
        linked_requirements: Vec::new(),
    };
    let parsed = vec![
        Ok(DocumentContent::Policies { category: "B".to_string(), policies: vec![policy("POL-001", "from b")] }),
        Ok(DocumentContent::Policies { category: "A".to_string(), policies: vec![policy("POL-001", "from a")] }),
        Err("bad".to_string()),
    ];
    let workspace = build_browser_workspace(
        AppPayload {
            workspace_root: ".".to_string(),
            spec_root: "docs".to_string(),
            source_documents: sources,
            validation: ValidationSnapshot {
                definition_counts: DefinitionCounts::default(),
                trace_summary: TraceSummary::default(),
                issues: Vec::new(),
                referenced_rules: Vec::new(),
            },
        },
        parsed,
    );
    let labels: Vec<&str> = workspace.sections.iter().map(|s| s.label.as_str()).collect();
    assert_eq!(labels, vec!["philosophy", "policies", "features", "requirements"]);
    assert_eq!(workspace.sections[1].documents[0].path, "a.yaml");
    assert_eq!(workspace.sections[1].documents[1].path, "b.yaml");
    assert_eq!(workspace.sections[0].documents[0].title, "x");
    assert_eq!(workspace.sections[0].documents[0].folder_segments, vec!["nested".to_string(), "deep".to_string()]);
    assert_eq!(workspace.item_index.len(), 1);
    assert_eq!(workspace.index_entry("POL-001").map(|e| e.title.as_str()), Some("from b"));
    assert!(workspace.index_entry("POL-404").is_none());
}

#[test]
fn folder_segments_drop_the_file_name() {
    assert_eq!(folder_segments("a/b/c.yaml"), vec!["a".to_string(), "b".to_string()]);
    assert!(folder_segments("c.yaml").is_empty());
}

#[test]
fn cli_enums_expose_expected_labels() {
    assert_eq!(LookupKind::Philosophy.label(), "philosophy");
    assert_eq!(LookupKind::Policy.label(), "policy");
    assert_eq!(LookupKind::Requirement.label(), "requirement");
    assert_eq!(LookupKind::Feature.label(), "feature");
    assert_eq!(StarterTemplate::Generic.label(), "generic");
    assert_eq!(StarterTemplate::DocsFirst.label(), "docs-first");
    assert_eq!(StarterTemplate::RustOnly.label(), "rust-only");
    assert_eq!(StarterTemplate::PythonOnly.label(), "python-only");
    assert_eq!(StarterTemplate::RubyOnly.label(), "ruby-only");
    assert_eq!(StarterTemplate::GoOnly.label(), "go-only");
    assert_eq!(StarterTemplate::JavaOnly.label(), "java-only");
    assert_eq!(StarterTemplate::TypeScriptOnly.label(), "typescript-only");
    assert_eq!(StarterTemplate::Polyglot.label(), "polyglot");
    assert_eq!(ValidationSeverityFilter::Error.as_str(), "error");
    assert_eq!(ValidationSeverityFilter::Warning.as_str(), "warning");
    assert_eq!(ValidationGenreFilter::Workspace.as_str(), "workspace");
    assert_eq!(ValidationGenreFilter::Graph.as_str(), "graph");
    assert_eq!(ValidationGenreFilter::Delivery.as_str(), "delivery");
    assert_eq!(ValidationGenreFilter::Trace.as_str(), "trace");
    assert_eq!(ValidationGenreFilter::Coverage.as_str(), "coverage");
    assert_eq!(SectionKind::Philosophy.label(), "philosophy");
    assert_eq!(SectionKind::Requirements.label(), "requirements");
}

#[test]
fn history_kind_labels_match_cli_values() {
    assert_eq!(HistoryKind::All.label(), "all");
    assert_eq!(HistoryKind::Definition.label(), "definition");
    assert_eq!(HistoryKind::Test.label(), "test");
    assert_eq!(HistoryKind::Implementation.label(), "implementation");
}
