use syu::cli::LookupKind;
use syu::list::{levenshtein_distance, parse_kind_name, parse_list_positionals, section_list, suggested_lookup_kind, text_list};
use syu::lookup::EntitySummary;

fn args(items: &[&str]) -> Vec<String> {
    items.iter().map(|item| item.to_string()).collect()
}

#[test]
fn parse_list_positionals_empty_returns_all_kinds_in_cwd() {
    let (kind, workspace) = parse_list_positionals(&Vec::new(), false).expect("should succeed");
    assert!(kind.is_none());
    assert_eq!(workspace, ".");
}

#[test]
fn parse_list_positionals_path_returns_all_kinds_in_given_workspace() {
    let (kind, workspace) = parse_list_positionals(&args(&["/tmp/myproject"]), false).expect("should succeed");
    assert!(kind.is_none());
    assert_eq!(workspace, "/tmp/myproject");
}

#[test]
fn parse_list_positionals_dot_returns_all_kinds_in_cwd() {
    let (kind, workspace) = parse_list_positionals(&args(&["."]), true).expect("should succeed");
    assert!(kind.is_none());
    assert_eq!(workspace, ".");
}

#[test]
fn parse_list_positionals_kind_only_returns_kind_with_cwd() {
    let (kind, workspace) = parse_list_positionals(&args(&["requirement"]), false).expect("should succeed");
    assert_eq!(kind, Some(LookupKind::Requirement));
    assert_eq!(workspace, ".");
}

#[test]
fn parse_list_positionals_kind_and_workspace_returns_both() {
    let (kind, workspace) = parse_list_positionals(&args(&["feature", "/tmp/ws"]), false).expect("should succeed");
    assert_eq!(kind, Some(LookupKind::Feature));
    assert_eq!(workspace, "/tmp/ws");
}

#[test]
fn parse_list_positionals_kind_plural_alias_works() {
    let (kind, _workspace) = parse_list_positionals(&args(&["requirements"]), false).expect("should succeed");
    assert_eq!(kind, Some(LookupKind::Requirement));
}

#[test]
fn parse_list_positionals_two_args_invalid_kind_returns_error() {
    let result = parse_list_positionals(&args(&["notakind", "."]), true);
    assert!(result.is_err());
    let msg = result.unwrap_err();
    assert!(msg.contains("invalid value"), "error: {msg}");
    assert!(msg.contains("syu list ."), "hint missing: {msg}");
}

#[test]
fn parse_list_positionals_single_arg_kind_typo_returns_error() {
    let result = parse_list_positionals(&args(&["philsophy"]), false);
    assert!(result.is_err());
    let msg = result.unwrap_err();
    assert!(msg.contains("did you mean `philosophy`"), "error: {msg}");
    assert!(msg.contains("syu list --help"), "hint missing: {msg}");
}

#[test]
fn existing_paths_win_over_kind_suggestions() {
    let (kind, workspace) = parse_list_positionals(&args(&["polcy"]), true).expect("should succeed");
    assert!(kind.is_none());
    assert_eq!(workspace, "polcy");
}

#[test]
fn kind_names_ignore_ascii_case() {
    assert_eq!(parse_kind_name("Policies"), Some(LookupKind::Policy));
    assert_eq!(parse_kind_name("FEATURE"), Some(LookupKind::Feature));
    assert_eq!(parse_kind_name("notes"), None);
}

#[test]
fn levenshtein_distance_counts_single_character_edits() {
    assert_eq!(levenshtein_distance("kitten", "sitting"), 3);
    assert_eq!(levenshtein_distance("", "feature"), 7);
    assert_eq!(levenshtein_distance("policy", "policy"), 0);
    assert_eq!(levenshtein_distance("philsophy", "philosophy"), 1);
}

#[test]
fn suggestions_pick_the_nearest_layer_within_two_edits() {
    assert_eq!(suggested_lookup_kind("Featur"), Some("feature"));
    assert_eq!(suggested_lookup_kind("polcy"), Some("policy"));
    assert_eq!(suggested_lookup_kind("workspace"), None);
}

#[test]
fn listings_print_ids_and_titles() {
    let items = vec![
        EntitySummary { id: "REQ-1".to_string(), title: "First".to_string(), document_path: None },
        EntitySummary { id: "REQ-2".to_string(), title: "Second".to_string(), document_path: None },
    ];
    assert_eq!(text_list(&items), "REQ-1\tFirst\nREQ-2\tSecond\n");
    assert_eq!(section_list("requirement", &items), "=== requirement (2) ===\nREQ-1\tFirst\nREQ-2\tSecond\n\n");
}

#[test]
fn parse_list_positionals_accepts_workspace_then_kind() {
    let (kind, workspace) = parse_list_positionals(&args(&["/tmp/ws", "feature"]), false).expect("either order is accepted");
    assert_eq!(kind, Some(syu::cli::LookupKind::Feature));
    assert_eq!(workspace, "/tmp/ws");
    let both_paths = parse_list_positionals(&args(&["/tmp/ws", "/tmp/other"]), false).unwrap_err();
    assert!(both_paths.contains("invalid value '/tmp/ws' for KIND"));
}
