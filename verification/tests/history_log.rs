use syu::cli::{HistoryKind, LookupKind};
use syu::log::{
    collect_trace_paths, dedupe_tracked_paths, lookup_kind_for_id, normalize_path_filter,
    parse_git_history, render_history_text, resolve_history_scope, sort_ready_commits,
    tracked_paths_for_feature, tracked_paths_for_non_trace_layer, tracked_paths_for_requirement,
    HistoryScope, HistoryTarget, MatchedCommit, TrackedPath,
};
use syu::model::{Feature, Requirement, TraceGroup, TraceReference};
use syu::history::{build_history_target, resolve_history_entity};
use syu::lookup::WorkspaceEntity;

fn trace_map(file: &str, symbol: &str) -> Vec<TraceGroup> {
    vec![TraceGroup {
        language: "rust".to_string(),
        references: vec![TraceReference {
            file: file.to_string(),
            symbols: vec![symbol.to_string()],
            doc_contains: Vec::new(),
        }],
    }]
}

fn commit(sha: &str, authored_at: &str) -> MatchedCommit {
    MatchedCommit {
        sha: sha.to_string(),
        short_sha: sha.to_string(),
        summary: sha.to_string(),
        author: "Tester".to_string(),
        authored_at: authored_at.to_string(),
        reasons: vec![TrackedPath::definition(
            "feature",
            "FEAT-LOG-001",
            "selected",
            &format!("docs/{sha}.yaml"),
        )],
    }
}

#[test]
fn normalize_path_filter_accepts_relative_paths() {
    let normalized = normalize_path_filter("/repo", "./src/../src/command")
        .expect("relative path should stay normalized");
    assert_eq!(normalized, "src/command");
}

#[test]
fn normalize_path_filter_strips_workspace_prefix_from_absolute_paths() {
    let normalized = normalize_path_filter("/repo", "/repo/src/command/log.rs")
        .expect("absolute path inside workspace should be normalized");
    assert_eq!(normalized, "src/command/log.rs");
}

#[test]
fn normalize_path_filter_rejects_absolute_paths_outside_workspace() {
    let error = normalize_path_filter("/repo", "/outside/src/log.rs")
        .expect_err("outside path should be rejected");
    assert!(error.contains("must stay inside workspace"));
}

#[test]
fn normalize_path_filter_rejects_parent_segments() {
    let error = normalize_path_filter("/repo", "../src/log.rs")
        .expect_err("parent paths should be rejected");
    assert!(error.contains("must stay inside workspace"));
}

#[test]
fn normalize_path_filter_reports_the_exact_message() {
    let error = normalize_path_filter("/repo", "../x").unwrap_err();
    assert_eq!(error, "path filter `../x` must stay inside workspace `/repo`");
}

#[test]
fn lookup_kind_for_id_handles_supported_prefixes_and_unknowns() {
    assert!(matches!(lookup_kind_for_id("PHIL-001"), Some(LookupKind::Philosophy)));
    assert!(matches!(lookup_kind_for_id("POL-001"), Some(LookupKind::Policy)));
    assert!(matches!(lookup_kind_for_id("REQ-001"), Some(LookupKind::Requirement)));
    assert!(matches!(lookup_kind_for_id("FEAT-001"), Some(LookupKind::Feature)));
    assert!(lookup_kind_for_id("NOTE-001").is_none());
}

#[test]
fn collect_trace_paths_preserves_language_and_symbols() {
    let traces = trace_map("src/log.rs", "run_log_command");
    let paths = collect_trace_paths("feature", "FEAT-LOG-001", "selected", "implementation", &traces);
    assert_eq!(paths[0].kind, "implementation");
    assert_eq!(paths[0].path, "src/log.rs");
    assert_eq!(paths[0].owner_kind, "feature");
    assert_eq!(paths[0].owner_id, "FEAT-LOG-001");
    assert_eq!(paths[0].language.as_deref(), Some("rust"));
    assert_eq!(paths[0].symbols, vec!["run_log_command"]);
}

#[test]
fn requirement_kind_branches_return_expected_paths() {
    let requirement = Requirement {
        id: "REQ-LOG-001".to_string(),
        title: "Requirement history".to_string(),
        description: "Requirement history".to_string(),
        priority: "medium".to_string(),
        status: "implemented".to_string(),
        linked_policies: Vec::new(),
        linked_features: Vec::new(),
        tests: trace_map("src/history_tests.rs", "history_test"),
    };

    let all = tracked_paths_for_requirement(&requirement, HistoryKind::All, "docs/req.yaml")
        .expect("all history should work");
    assert_eq!(all.len(), 2);
    assert_eq!(all[0].kind, "definition");
    assert_eq!(all[1].kind, "test");

    let definition =
        tracked_paths_for_requirement(&requirement, HistoryKind::Definition, "docs/req.yaml")
            .expect("definition history should work");
    assert_eq!(definition.len(), 1);
    assert_eq!(definition[0].kind, "definition");

    let tests = tracked_paths_for_requirement(&requirement, HistoryKind::Test, "docs/req.yaml")
        .expect("test history should work");
    assert_eq!(tests.len(), 1);
    assert_eq!(tests[0].kind, "test");

    let error =
        tracked_paths_for_requirement(&requirement, HistoryKind::Implementation, "docs/req.yaml")
            .expect_err("requirements should reject implementation history");
    assert!(error.contains("--kind implementation"));
}

#[test]
fn feature_kind_branches_return_expected_paths() {
    let feature = Feature {
        id: "FEAT-LOG-001".to_string(),
        title: "Feature history".to_string(),
        summary: "Feature history".to_string(),
        status: "implemented".to_string(),
        linked_requirements: Vec::new(),
        implementations: trace_map("src/history_feature.rs", "history_feature"),
    };

    let all = tracked_paths_for_feature(&feature, HistoryKind::All, "docs/feat.yaml")
        .expect("all history should work");
    assert_eq!(all.len(), 2);
    assert_eq!(all[0].kind, "definition");
    assert_eq!(all[1].kind, "implementation");

    let definition = tracked_paths_for_feature(&feature, HistoryKind::Definition, "docs/feat.yaml")
        .expect("definition history should work");
    assert_eq!(definition.len(), 1);
    assert_eq!(definition[0].kind, "definition");

    let implementations =
        tracked_paths_for_feature(&feature, HistoryKind::Implementation, "docs/feat.yaml")
            .expect("implementation history should work");
    assert_eq!(implementations.len(), 1);
    assert_eq!(implementations[0].kind, "implementation");

    let error = tracked_paths_for_feature(&feature, HistoryKind::Test, "docs/feat.yaml")
        .expect_err("features should reject test history");
    assert!(error.contains("--kind test"));
}

#[test]
fn non_trace_layers_only_track_their_definition() {
    let all = tracked_paths_for_non_trace_layer("POL-001", "policy", HistoryKind::All, "docs/pol.yaml")
        .expect("all history should work");
    assert_eq!(all.len(), 1);
    assert_eq!(all[0].path, "docs/pol.yaml");
    assert!(tracked_paths_for_non_trace_layer("POL-001", "policy", HistoryKind::Test, "docs/pol.yaml")
        .is_err());
}

#[test]
fn dedupe_tracked_paths_keeps_first_occurrences() {
    let first = TrackedPath::definition("feature", "FEAT-1", "selected", "docs/a.yaml");
    let second = TrackedPath::definition("feature", "FEAT-1", "selected", "docs/b.yaml");
    let deduped = dedupe_tracked_paths(&vec![
        first.duplicate(),
        second.duplicate(),
        first.duplicate(),
    ]);
    assert_eq!(deduped.len(), 2);
    assert_eq!(deduped[0].path, "docs/a.yaml");
    assert_eq!(deduped[1].path, "docs/b.yaml");
}

#[test]
fn resolve_history_scope_returns_none_without_filters() {
    assert_eq!(resolve_history_scope(".", None, None).expect("scope should resolve"), None);
}

#[test]
fn resolve_history_scope_keeps_explicit_ranges() {
    let scope = resolve_history_scope(".", Some("origin/main..HEAD"), None)
        .expect("scope should resolve")
        .expect("scope should exist");
    assert_eq!(scope.label, "range `origin/main..HEAD`");
    assert_eq!(scope.revision_range, "origin/main..HEAD");
}

#[test]
fn resolve_history_scope_uses_the_merge_base_sha() {
    let scope = resolve_history_scope(".", None, Some(("origin/main", "abc123")))
        .expect("scope should resolve")
        .expect("scope should exist");
    assert_eq!(scope.label, "merge-base(origin/main)..HEAD");
    assert_eq!(scope.revision_range, "abc123..HEAD");
}

#[test]
fn parse_git_history_rejects_malformed_records() {
    let error = parse_git_history(b"\x1ebad-record\x00")
        .expect_err("malformed git records should be rejected");
    assert!(error.contains("unexpected `git log` output"));
}

#[test]
fn parse_git_history_parses_commit_records_without_reason_filtering() {
    let raw = b"\x1esha\x00short\x00author\x002026-04-13T00:00:00+00:00\x00subject\x00\nsrc/other.rs\x00";
    let commits = parse_git_history(raw).expect("parsing should succeed");
    assert_eq!(commits.len(), 1);
    assert_eq!(commits[0].summary, "subject");
    assert!(commits[0].reasons.is_empty());
}

#[test]
fn parse_git_history_ignores_invalid_utf8_file_names_after_the_subject() {
    let raw = b"\x1esha\x00short\x00author\x002026-04-13T00:00:00+00:00\x00subject\x00\n\xff\x00";
    let commits = parse_git_history(raw).expect("parsing should succeed");
    assert_eq!(commits.len(), 1);
    assert_eq!(commits[0].sha, "sha");
    assert!(commits[0].reasons.is_empty());
}

#[test]
fn parse_git_history_decodes_every_field_of_each_record() {
    let raw = b"\x1ea1\x00a\x00Ann\x00t1\x00first\x00\n\x1eb2\x00b\x00Bob\x00t2\x00second\x00";
    let commits = parse_git_history(raw).expect("parsing should succeed");
    assert_eq!(commits.len(), 2);
    assert_eq!(commits[0].short_sha, "a");
    assert_eq!(commits[0].author, "Ann");
    assert_eq!(commits[0].authored_at, "t1");
    assert_eq!(commits[1].sha, "b2");
    assert_eq!(commits[1].summary, "second");
}

#[test]
fn parse_git_history_rejects_invalid_utf8_in_header_fields() {
    let error = parse_git_history(b"\x1e\xff\x00s\x00a\x00t\x00subject\x00").unwrap_err();
    assert_eq!(error, "git output should be valid UTF-8");
}

#[test]
fn render_history_text_handles_empty_commit_lists() {
    let rendered = render_history_text(
        &HistoryTarget {
            id: "REQ-LOG-001".to_string(),
            entity_kind: "requirement",
            title: "Requirement history".to_string(),
            tracked_paths: vec![TrackedPath::definition(
                "requirement",
                "REQ-LOG-001",
                "selected",
                "docs/req.yaml",
            )],
        },
        "/repo",
        HistoryKind::Definition,
        false,
        None,
        Some("docs"),
        &Vec::new(),
    );
    assert!(rendered.contains("Related surface: selected only"));
    assert!(rendered.contains("Path filter: docs"));
    assert!(rendered.contains("Commits:\n- none"));
}

#[test]
fn render_history_text_lists_commit_reasons() {
    let paths = TrackedPath {
        kind: "implementation",
        path: "src/history.rs".to_string(),
        owner_kind: "feature",
        owner_id: "FEAT-LOG-001".to_string(),
        source: "selected",
        language: Some("rust".to_string()),
        symbols: vec!["history".to_string()],
    };
    let rendered = render_history_text(
        &HistoryTarget {
            id: "FEAT-LOG-001".to_string(),
            entity_kind: "feature",
            title: "Feature history".to_string(),
            tracked_paths: vec![paths.duplicate()],
        },
        "/repo",
        HistoryKind::Implementation,
        true,
        Some(&HistoryScope {
            label: "merge-base(origin/main)..HEAD".to_string(),
            revision_range: "abc123..HEAD".to_string(),
        }),
        None,
        &vec![MatchedCommit {
            sha: "abc".to_string(),
            short_sha: "abc".to_string(),
            summary: "feat: update history".to_string(),
            author: "Tester".to_string(),
            authored_at: "2026-04-13T00:00:00+00:00".to_string(),
            reasons: vec![paths.duplicate()],
        }],
    );
    assert!(rendered.contains("Related surface: included"));
    assert!(rendered.contains("Scope: merge-base(origin/main)..HEAD"));
    assert!(rendered.contains("feat: update history"));
    assert!(rendered.contains(
        "implementation\tsrc/history.rs\trust\t[`history`]\tfeature FEAT-LOG-001 (selected)"
    ));
}

#[test]
fn sort_ready_commits_prefers_newer_commits_first() {
    let mut ready = vec!["older".to_string(), "newer".to_string()];
    let commit_lookup = vec![
        commit("older", "2026-04-13T00:00:00+00:00"),
        commit("newer", "2026-04-13T01:00:00+00:00"),
    ];

    sort_ready_commits(&mut ready, &commit_lookup);

    assert_eq!(ready, vec!["older".to_string(), "newer".to_string()]);
}

#[test]
fn sort_ready_commits_moves_the_newest_commit_to_the_end() {
    let mut ready = vec!["c".to_string(), "a".to_string(), "b".to_string()];
    let commit_lookup = vec![
        commit("a", "2026-01-01"),
        commit("b", "2026-01-01"),
        commit("c", "2025-12-31"),
    ];
    sort_ready_commits(&mut ready, &commit_lookup);
    assert_eq!(ready, vec!["c".to_string(), "a".to_string(), "b".to_string()]);

    let mut reversed = vec!["b".to_string(), "a".to_string(), "c".to_string()];
    sort_ready_commits(&mut reversed, &commit_lookup);
    assert_eq!(reversed, vec!["c".to_string(), "a".to_string(), "b".to_string()]);
}

fn matrix(n: usize, edges: &[(usize, usize)]) -> Vec<Vec<bool>> {
    let mut rows = vec![vec![false; n]; n];
    for (ancestor, descendant) in edges {
        rows[*ancestor][*descendant] = true;
    }
    rows
}

#[test]
fn history_order_lists_descendants_before_ancestors() {
    // base is an ancestor of both later commits, even though it is dated last.
    let commits = vec![
        commit("base", "2026-04-13T09:00:00+00:00"),
        commit("left", "2026-04-13T01:00:00+00:00"),
        commit("right", "2026-04-13T02:00:00+00:00"),
    ];
    let ancestry = matrix(3, &[(0, 1), (0, 2)]);
    assert_eq!(syu::log::history_order(&commits, &ancestry), Ok(vec![2, 1, 0]));
}

#[test]
fn history_order_reports_cyclic_ancestry() {
    let commits = vec![commit("a", "2026-01-01"), commit("b", "2026-01-02")];
    // a claims to be an ancestor of b and b of a; the first question wins for
    // the pair, so a third commit is needed for a cycle.
    let three = vec![commit("a", "1"), commit("b", "2"), commit("c", "3")];
    let cyclic = matrix(3, &[(0, 1), (1, 2), (2, 0)]);
    let error = syu::log::history_order(&three, &cyclic).unwrap_err();
    assert_eq!(error, "could not derive a stable candidate history order");
    assert_eq!(syu::log::history_order(&commits, &matrix(2, &[(0, 1), (1, 0)])), Ok(vec![1, 0]));
}

#[test]
fn recency_order_is_newest_first() {
    let commits = vec![commit("a", "2026-01-02"), commit("b", "2026-01-03"), commit("c", "2026-01-01")];
    assert_eq!(syu::log::recency_order(&commits), vec![1, 0, 2]);
}

#[test]
fn order_commits_falls_back_to_recency_and_applies_the_limit() {
    let commits = vec![
        commit("a", "2026-01-03"),
        commit("b", "2026-01-02"),
        commit("c", "2026-01-01"),
    ];
    let cyclic = matrix(3, &[(0, 1), (1, 2), (2, 0)]);
    let ordered = syu::log::order_commits_by_repository_history(&commits, Some(&cyclic), 2);
    assert_eq!(ordered.iter().map(|c| c.sha.as_str()).collect::<Vec<_>>(), vec!["a", "b"]);
    let by_history = syu::log::order_commits_by_repository_history(&commits, Some(&matrix(3, &[(0, 2)])), 5);
    assert_eq!(by_history.iter().map(|c| c.sha.as_str()).collect::<Vec<_>>(), vec!["b", "c", "a"]);
    let unknown = syu::log::order_commits_by_repository_history(&commits, None, 1);
    assert_eq!(unknown.len(), 1);
    assert_eq!(unknown[0].sha, "a");
}

#[test]
fn group_tracked_paths_collects_each_file_once_in_path_order() {
    let a = TrackedPath::definition("feature", "FEAT-1", "selected", "src/./b.rs");
    let b = TrackedPath::definition("feature", "FEAT-2", "related", "src/b.rs");
    let c = TrackedPath::definition("feature", "FEAT-3", "selected", "src/a-b.rs");
    let d = TrackedPath::definition("feature", "FEAT-4", "selected", "src/a/b.rs");
    let groups = syu::log::group_tracked_paths(&vec![a, b, c, d]);
    let names: Vec<&str> = groups.iter().map(|g| g.path.as_str()).collect();
    // path order compares part by part, so `src/a/b.rs` sorts before `src/a-b.rs`.
    assert_eq!(names, vec!["src/a/b.rs", "src/a-b.rs", "src/b.rs"]);
    assert_eq!(groups[2].members.len(), 2);
    assert_eq!(groups[2].members[0].owner_id, "FEAT-1");
    assert_eq!(groups[2].members[1].owner_id, "FEAT-2");
}

#[test]
fn group_tracked_paths_returns_nothing_for_no_paths() {
    assert!(syu::log::group_tracked_paths(&Vec::new()).is_empty());
}

#[test]
fn merge_histories_joins_reasons_by_sha_without_repeats() {
    let first = TrackedPath::definition("feature", "FEAT-1", "selected", "src/a.rs");
    let second = TrackedPath::definition("feature", "FEAT-1", "selected", "src/b.rs");
    let groups = syu::log::group_tracked_paths(&vec![first.duplicate(), second.duplicate(), first.duplicate()]);
    assert_eq!(groups.len(), 2);
    let logs = vec![
        vec![commit("bbb", "2"), commit("aaa", "1")],
        vec![commit("bbb", "2")],
    ];
    let merged = syu::log::merge_histories(&groups, &logs);
    assert_eq!(merged.len(), 2);
    assert_eq!(merged[0].sha, "aaa");
    assert_eq!(merged[1].sha, "bbb");
    assert_eq!(merged[0].reasons.len(), 1);
    assert_eq!(merged[0].reasons[0].path, "src/a.rs");
    let paths: Vec<&str> = merged[1].reasons.iter().map(|r| r.path.as_str()).collect();
    assert_eq!(paths, vec!["src/a.rs", "src/b.rs"]);
}

fn history_workspace(requirements: Vec<Requirement>) -> syu::check::Workspace {
    syu::check::Workspace {
        root: "/repo".to_string(),
        spec_root: "/repo/docs/syu".to_string(),
        config: syu::model::ValidateConfig::default_settings(),
        philosophies: Vec::new(),
        policies: Vec::new(),
        requirements,
        features: Vec::new(),
    }
}

fn traced_requirement(id: &str, file: &str) -> Requirement {
    Requirement {
        id: id.to_string(),
        title: format!("Title of {id}"),
        description: "Description".to_string(),
        priority: "high".to_string(),
        status: "implemented".to_string(),
        linked_policies: Vec::new(),
        linked_features: Vec::new(),
        tests: trace_map(file, "test_symbol"),
    }
}

fn docs(items: &[&str]) -> Vec<String> {
    items.iter().map(|item| item.to_string()).collect()
}

#[test]
fn resolve_history_entity_finds_the_single_definition() {
    let ws = history_workspace(vec![traced_requirement("REQ-001", "tests/a.rs"), traced_requirement("REQ-002", "tests/b.rs")]);
    let (entity, path) = resolve_history_entity(&ws, "/repo", "REQ-002", &docs(&["docs/a.yaml", "docs/b.yaml"])).expect("known id");
    assert_eq!(entity, WorkspaceEntity::Requirement(1));
    assert_eq!(path, "docs/b.yaml");
}

#[test]
fn resolve_history_entity_reports_unknown_ids_with_a_hint() {
    let ws = history_workspace(vec![traced_requirement("REQ-001", "tests/a.rs")]);
    let expected = "definition `REQ-404` was not found in `/repo`\n\nhint: Run `syu list /repo` to see all available IDs, or `syu search REQ-404 /repo` to find related items.";
    assert_eq!(resolve_history_entity(&ws, "/repo", "REQ-404", &docs(&["docs/a.yaml"])).unwrap_err(), expected);
    assert!(resolve_history_entity(&ws, "/repo", "NOTE-1", &docs(&[])).unwrap_err().starts_with("definition `NOTE-1` was not found"));
}

#[test]
fn resolve_history_entity_refuses_duplicate_ids() {
    let ws = history_workspace(vec![traced_requirement("REQ-001", "tests/a.rs"), traced_requirement("REQ-001", "tests/b.rs")]);
    let error = resolve_history_entity(&ws, "/repo", "REQ-001", &docs(&["docs/a.yaml", "docs/b.yaml"])).unwrap_err();
    assert_eq!(
        error,
        "definition `REQ-001` is ambiguous because it appears in multiple documents:\n- docs/a.yaml\n- docs/b.yaml\n\nhint: fix the duplicate ID before using `syu log`."
    );
}

#[test]
fn resolve_history_entity_refuses_document_lists_that_do_not_fit() {
    let ws = history_workspace(vec![traced_requirement("REQ-001", "tests/a.rs")]);
    assert_eq!(
        resolve_history_entity(&ws, "/repo", "REQ-001", &docs(&[])).unwrap_err(),
        "workspace requirement entries changed while collecting document paths"
    );
}

#[test]
fn build_history_target_follows_the_requested_kind_and_filter() {
    let ws = history_workspace(vec![traced_requirement("REQ-001", "tests/./a.rs")]);
    let target = build_history_target(&ws, "/repo", "REQ-001", &docs(&["docs/req.yaml"]), HistoryKind::All, Some("tests"))
        .expect("the test path stays");
    assert_eq!(target.id, "REQ-001");
    assert_eq!(target.entity_kind, "requirement");
    assert_eq!(target.title, "Title of REQ-001");
    assert_eq!(target.tracked_paths.len(), 1);
    assert_eq!(target.tracked_paths[0].path, "tests/./a.rs");
    let all = build_history_target(&ws, "/repo", "REQ-001", &docs(&["docs/req.yaml"]), HistoryKind::All, None).expect("all paths");
    assert_eq!(all.tracked_paths.len(), 2);
    assert_eq!(all.tracked_paths[0].path, "docs/req.yaml");
}

#[test]
fn build_history_target_reports_when_no_path_remains() {
    let ws = history_workspace(vec![traced_requirement("REQ-001", "tests/a.rs")]);
    assert_eq!(
        build_history_target(&ws, "/repo", "REQ-001", &docs(&["docs/req.yaml"]), HistoryKind::Test, Some("src")).unwrap_err(),
        "no tracked history paths remain for `REQ-001` after applying kind `test` and path `src`"
    );
    assert_eq!(
        build_history_target(&ws, "/repo", "REQ-001", &docs(&["docs/req.yaml"]), HistoryKind::Implementation, None).unwrap_err(),
        "`REQ-001` is a requirement, so `--kind implementation` is not available. Use `--kind test`, `--kind definition`, or omit the flag."
    );
}

#[test]
fn order_commits_by_repository_history_sorts_multiple_ready_dependents_by_recency() {
    // Listed by sha: new, old-a, old-b; old-a and old-b are both ancestors of new.
    let commits = vec![
        commit("new", "2026-04-13T02:00:00+00:00"),
        commit("old-a", "2026-04-13T00:00:00+00:00"),
        commit("old-b", "2026-04-13T01:00:00+00:00"),
    ];
    let ordered = syu::log::order_commits_by_repository_history(&commits, Some(&matrix(3, &[(1, 0), (2, 0)])), 10);
    assert_eq!(ordered.iter().map(|c| c.sha.as_str()).collect::<Vec<_>>(), vec!["new", "old-b", "old-a"]);
}

#[test]
fn order_commits_by_repository_history_sorts_newly_ready_dependents_by_recency() {
    // Listed by sha: mid-a, mid-b, root; root is an ancestor of both.
    let commits = vec![
        commit("mid-a", "2026-04-13T01:00:00+00:00"),
        commit("mid-b", "2026-04-13T02:00:00+00:00"),
        commit("root", "2026-04-13T00:00:00+00:00"),
    ];
    let ordered = syu::log::order_commits_by_repository_history(&commits, Some(&matrix(3, &[(2, 0), (2, 1)])), 10);
    assert_eq!(ordered.iter().map(|c| c.sha.as_str()).collect::<Vec<_>>(), vec!["mid-b", "mid-a", "root"]);
}

#[test]
fn order_commits_by_repository_history_reports_inconsistent_ancestry_cycles() {
    let commits = vec![
        commit("old-a", "2026-04-13T00:00:00+00:00"),
        commit("old-b", "2026-04-13T01:00:00+00:00"),
        commit("old-c", "2026-04-13T02:00:00+00:00"),
    ];
    let error = syu::log::history_order(&commits, &matrix(3, &[(0, 1), (1, 2), (2, 0)])).expect_err("inconsistent ancestry should fail");
    assert!(error.contains("could not derive a stable candidate history order"));
}

#[test]
fn history_limit_must_be_positive() {
    assert_eq!(syu::log::check_history_limit(0), Err("`--limit` must be greater than zero".to_string()));
    assert_eq!(syu::log::check_history_limit(1), Ok(()));
}

#[test]
fn load_git_history_returns_empty_without_tracked_paths() {
    let groups = syu::log::group_tracked_paths(&Vec::new());
    assert!(groups.is_empty());
    let merged = syu::log::merge_histories(&groups, &Vec::new());
    let history = syu::log::order_commits_by_repository_history(&merged, None, 5);
    assert!(history.is_empty());
}
