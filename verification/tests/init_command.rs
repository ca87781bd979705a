use syu::cli::{OutputFormat, StarterTemplate};
use syu::init::{
    default_id_prefixes, ensure_writable_targets, feature_document_path, feature_kind, go_module_path, infer_project_name, join_path,
    parse_starter_template_prompt, render_init_summary, requirement_document_path, resolve_init_id_prefixes, resolve_init_spec_root,
    scaffold_files, validate_interactive_init_mode,
};

const DEFAULT_SPEC_ROOT: &str = "docs/syu";

const GENERATED_PATHS: &[&str] = &[
    "syu.yaml",
    "docs/syu/philosophy/foundation.yaml",
    "docs/syu/policies/policies.yaml",
    "docs/syu/requirements/core/core.yaml",
    "docs/syu/features/features.yaml",
    "docs/syu/features/core/core.yaml",
];

fn scaffold(project: &str, spec_root: &str, template: StarterTemplate) -> Vec<(String, String)> {
    scaffold_files(project, spec_root, template, &default_id_prefixes(template), "version: 1\n".to_string(), "1")
}

#[test]
fn infer_project_name_uses_workspace_directory() {
    assert_eq!(infer_project_name("/tmp/example-project"), "example-project");
}

#[test]
fn go_module_path_normalizes_project_names() {
    assert_eq!(go_module_path("Go Only Demo"), "example.com/go-only-demo");
    assert_eq!(go_module_path("..."), "example.com/project");
    assert_eq!(go_module_path("Client/API Workspace"), "example.com/client-api-workspace");
}

#[test]
fn scaffold_files_include_all_expected_templates() {
    let files = scaffold("demo", DEFAULT_SPEC_ROOT, StarterTemplate::Generic);
    let paths: Vec<_> = files.into_iter().map(|(path, _)| path).collect();
    assert_eq!(paths.len(), GENERATED_PATHS.len());
    for expected in GENERATED_PATHS {
        assert!(paths.iter().any(|path| path == expected));
    }
}

#[test]
fn go_only_scaffold_includes_a_go_module_file() {
    let files = scaffold("Go Only Demo", DEFAULT_SPEC_ROOT, StarterTemplate::GoOnly);
    let go_mod = files.into_iter().find(|(path, _)| path == "go.mod").expect("go-only scaffold should include go.mod");

    assert_eq!(go_mod.1, "module example.com/go-only-demo\n\ngo 1.19\n");
}

#[test]
fn resolve_init_id_prefixes_accepts_shared_stems_and_overrides() {
    let prefixes = resolve_init_id_prefixes(
        StarterTemplate::RustOnly,
        Some("store"),
        Some("phil-guiding"),
        Some("pol-governance"),
        Some("req-auth"),
        Some("feat-auth"),
    )
    .expect("prefixes should resolve");
    assert_eq!(prefixes.philosophy, "PHIL-GUIDING");
    assert_eq!(prefixes.policy, "POL-GOVERNANCE");
    assert_eq!(prefixes.requirement, "REQ-AUTH");
    assert_eq!(prefixes.feature, "FEAT-AUTH");
}

#[test]
fn resolve_init_id_prefixes_rejects_full_prefixes_as_shared_stems() {
    let error = resolve_init_id_prefixes(StarterTemplate::Generic, Some("REQ-STORE"), None, None, None, None)
        .expect_err("typed stems should be rejected");
    assert!(error.contains("--id-prefix"));
}

#[test]
fn resolve_init_id_prefixes_rejects_typed_overrides_without_expected_prefix() {
    let error = resolve_init_id_prefixes(StarterTemplate::Generic, None, Some("store"), None, None, None)
        .expect_err("typed overrides should require a prefix");
    assert!(error.contains("--philosophy-prefix"));
    assert!(error.contains("PHIL"));
}

#[test]
fn resolve_init_id_prefixes_rejects_invalid_override_tokens() {
    let error = resolve_init_id_prefixes(StarterTemplate::Generic, None, None, None, None, Some("feat_store"))
        .expect_err("invalid override tokens should be rejected");
    assert!(error.contains("--feature-prefix"));
    assert!(error.contains("single hyphens"));
}

#[test]
fn shared_stems_prefix_every_layer() {
    let prefixes = resolve_init_id_prefixes(StarterTemplate::Generic, Some(" store "), None, None, None, None).expect("stem");
    assert_eq!(prefixes.philosophy, "PHIL-STORE");
    assert_eq!(prefixes.feature_id(), "FEAT-STORE-001");
    let defaults = default_id_prefixes(StarterTemplate::PythonOnly);
    assert_eq!(defaults.requirement_id(), "REQ-PY-001");
}

#[test]
fn parse_starter_template_prompt_accepts_remaining_aliases() {
    assert_eq!(parse_starter_template_prompt("docs"), Some(StarterTemplate::DocsFirst));
    assert_eq!(parse_starter_template_prompt("python"), Some(StarterTemplate::PythonOnly));
    assert_eq!(parse_starter_template_prompt("go"), Some(StarterTemplate::GoOnly));
    assert_eq!(parse_starter_template_prompt("mixed"), Some(StarterTemplate::Polyglot));
    assert_eq!(parse_starter_template_prompt("unknown"), None);
}

#[test]
fn scaffold_files_default_to_planned_status() {
    let files = scaffold("demo", DEFAULT_SPEC_ROOT, StarterTemplate::Generic);
    let requirement =
        files.iter().find(|(path, _)| path == "docs/syu/requirements/core/core.yaml").expect("requirement template");
    let feature = files.iter().find(|(path, _)| path == "docs/syu/features/core/core.yaml").expect("feature template");

    assert!(requirement.1.contains("status: planned"));
    assert!(feature.1.contains("status: planned"));
}

#[test]
fn scaffold_files_support_language_oriented_templates() {
    let spec_root = DEFAULT_SPEC_ROOT;
    for template in [StarterTemplate::DocsFirst, StarterTemplate::RustOnly, StarterTemplate::PythonOnly, StarterTemplate::Polyglot] {
        let files = scaffold("demo", spec_root, template);
        let paths: Vec<_> = files.iter().map(|(path, _)| path.as_str()).collect();
        assert!(paths.contains(&"syu.yaml"));
        assert!(paths.contains(&"docs/syu/philosophy/foundation.yaml"));
        assert!(paths.contains(&"docs/syu/policies/policies.yaml"));
        let requirement_path = join_path(spec_root, requirement_document_path(template));
        let feature_path = join_path(spec_root, &feature_document_path(template));
        assert!(paths.contains(&requirement_path.as_str()));
        assert!(paths.contains(&feature_path.as_str()));

        let registry =
            files.iter().find(|(path, _)| path == "docs/syu/features/features.yaml").expect("feature registry should exist");
        assert!(registry.1.contains(feature_kind(template)));
        if template == StarterTemplate::DocsFirst {
            assert!(paths.contains(&"scripts/publish-docs.sh"));
            assert!(paths.contains(&"config/navigation.yaml"));
        }
    }
}

#[test]
fn scaffold_files_support_language_templates_in_custom_spec_roots() {
    let files = scaffold("demo", "spec/contracts", StarterTemplate::RustOnly);
    let paths: Vec<_> = files.iter().map(|(path, _)| path.as_str()).collect();

    assert!(paths.contains(&"spec/contracts/philosophy/foundation.yaml"));
    assert!(paths.contains(&"spec/contracts/policies/policies.yaml"));
    assert!(paths.contains(&"spec/contracts/requirements/core/rust.yaml"));
    assert!(paths.contains(&"spec/contracts/features/languages/rust.yaml"));

    let registry =
        files.iter().find(|(path, _)| path == "spec/contracts/features/features.yaml").expect("feature registry should exist");
    assert!(registry.1.contains("kind: rust"));
    assert!(registry.1.contains("file: languages/rust.yaml"));
}

#[test]
fn resolve_init_spec_root_normalizes_relative_paths() {
    assert_eq!(resolve_init_spec_root(Some("./spec/./contracts")).expect("spec root should normalize"), "spec/contracts");
    assert_eq!(resolve_init_spec_root(None).expect("default spec root should resolve"), DEFAULT_SPEC_ROOT);
}

#[test]
fn resolve_init_spec_root_rejects_paths_outside_workspace() {
    let parent = resolve_init_spec_root(Some("../spec")).expect_err("parent paths should fail");
    assert!(parent.contains("--spec-root"));

    let absolute = resolve_init_spec_root(Some("/tmp/spec")).expect_err("absolute paths should fail");
    assert!(absolute.contains("--spec-root"));
}

#[test]
fn writable_targets_and_interactive_modes() {
    assert!(ensure_writable_targets(&vec!["a".to_string()], true).is_ok());
    assert!(ensure_writable_targets(&Vec::new(), false).is_ok());
    assert_eq!(
        ensure_writable_targets(&vec!["/w/syu.yaml".to_string(), "/w/docs".to_string()], false),
        Err("refusing to overwrite existing files without --force: `/w/syu.yaml`, `/w/docs`".to_string())
    );
    assert!(validate_interactive_init_mode(false, false, OutputFormat::Json).is_ok());
    assert_eq!(
        validate_interactive_init_mode(true, false, OutputFormat::Text),
        Err("`syu init --interactive` requires a terminal to prompt for starter settings".to_string())
    );
    assert_eq!(
        validate_interactive_init_mode(true, true, OutputFormat::Json),
        Err("`syu init --interactive` does not support `--format json`; use text output instead".to_string())
    );
}

#[test]
fn init_summary_lists_files_and_next_steps() {
    let summary = render_init_summary("/tmp/demo", "docs/syu", StarterTemplate::Generic, &vec!["syu.yaml".to_string()]);
    assert!(summary.starts_with("initialized syu workspace at /tmp/demo\n\nCreated files:\n  syu.yaml\n\nWhat to do next:\n"));
    assert!(summary.contains("  1. Edit the spec files in /tmp/demo/docs/syu/ to describe your project\n"));
    assert!(summary.contains("     - docs/syu/requirements/core/core.yaml  (concrete requirements)\n"));
    assert!(summary.contains("  2. Run `syu validate /tmp/demo` to check your spec for consistency\n"));
}

#[test]
fn language_starters_scaffold_every_layer() {
    for (template, lang, stem) in [
        (StarterTemplate::RubyOnly, "ruby", "RUBY"),
        (StarterTemplate::JavaOnly, "java", "JAVA"),
        (StarterTemplate::TypeScriptOnly, "typescript", "TS"),
    ] {
        let files = scaffold("demo", DEFAULT_SPEC_ROOT, template);
        let paths: Vec<String> = files.iter().map(|(path, _)| path.clone()).collect();
        assert_eq!(paths.len(), 6);
        assert!(paths.contains(&"syu.yaml".to_string()));
        assert!(paths.contains(&"docs/syu/philosophy/foundation.yaml".to_string()));
        assert!(paths.contains(&"docs/syu/policies/policies.yaml".to_string()));
        assert!(paths.contains(&"docs/syu/features/features.yaml".to_string()));
        assert!(paths.contains(&format!("docs/syu/requirements/core/{lang}.yaml")));
        assert!(paths.contains(&format!("docs/syu/features/languages/{lang}.yaml")));
        let requirement = files.iter().find(|(path, _)| path.ends_with(&format!("requirements/core/{lang}.yaml"))).unwrap();
        assert!(requirement.1.contains(&format!("  - id: REQ-{stem}-001
")));
        assert!(requirement.1.contains("status: planned"));
        let registry = files.iter().find(|(path, _)| path.ends_with("features/features.yaml")).unwrap();
        assert!(registry.1.contains(&format!("  - kind: {lang}
    file: languages/{lang}.yaml
")));
    }
}

#[test]
fn typescript_starter_uses_its_own_prefixes() {
    let prefixes = default_id_prefixes(StarterTemplate::TypeScriptOnly);
    assert_eq!(prefixes.philosophy, "PHIL-TS");
    assert_eq!(prefixes.feature, "FEAT-TS");
    let summary = render_init_summary("/tmp/demo", "docs/syu", StarterTemplate::JavaOnly, &vec!["syu.yaml".to_string()]);
    assert!(summary.contains("     - docs/syu/requirements/core/java.yaml  (concrete requirements)
"));
    assert!(summary.contains("     - docs/syu/features/languages/java.yaml  (feature definitions)
"));
}

#[derive(Default)]
struct FakeInitPrompt {
    terminal: bool,
    lines: std::collections::VecDeque<String>,
    prompts: Vec<(String, Option<String>)>,
    reports: Vec<String>,
}

impl syu::prompt::PromptIo for FakeInitPrompt {
    fn is_terminal(&self) -> bool {
        self.terminal
    }

    fn prompt_line(&mut self, label: &str, default: Option<&str>) -> Result<String, String> {
        self.prompts.push((label.to_string(), default.map(|d| d.to_string())));
        Ok(self.lines.pop_front().unwrap_or_default())
    }

    fn report(&mut self, message: &str) {
        self.reports.push(message.to_string());
    }
}

fn interactive_init_args(id_prefix: Option<&str>, philosophy_prefix: Option<&str>) -> syu::cli::InitArgs {
    syu::cli::InitArgs {
        workspace: ".".to_string(),
        interactive: true,
        name: None,
        spec_root: None,
        template: StarterTemplate::Generic,
        id_prefix: id_prefix.map(|s| s.to_string()),
        philosophy_prefix: philosophy_prefix.map(|s| s.to_string()),
        policy_prefix: None,
        requirement_prefix: None,
        feature_prefix: None,
        force: false,
        format: OutputFormat::Text,
    }
}

#[test]
fn prompt_helpers_support_template_and_spec_root_guidance() {
    let mut prompt_io = FakeInitPrompt {
        terminal: true,
        lines: std::collections::VecDeque::from(["rust".to_string(), "../spec".to_string(), "spec/contracts".to_string()]),
        ..Default::default()
    };

    let template = syu::init::prompt_for_starter_template(&mut prompt_io, StarterTemplate::Generic).expect("template");
    let spec_root = syu::init::prompt_for_spec_root(&mut prompt_io, None).expect("spec root");

    assert_eq!(template, StarterTemplate::RustOnly);
    assert_eq!(spec_root, "spec/contracts");
    assert_eq!(prompt_io.prompts.len(), 3);
}

#[test]
fn prompt_for_starter_template_retries_invalid_values() {
    let mut prompt_io = FakeInitPrompt {
        terminal: true,
        lines: std::collections::VecDeque::from(["unknown".to_string(), "6".to_string()]),
        ..Default::default()
    };

    let template =
        syu::init::prompt_for_starter_template(&mut prompt_io, StarterTemplate::Generic).expect("template prompt should retry");

    assert_eq!(template, StarterTemplate::Polyglot);
    assert_eq!(prompt_io.prompts.len(), 2);
    assert_eq!(prompt_io.reports.len(), 1);
}

#[test]
fn resolve_interactive_id_prefixes_uses_explicit_overrides_without_prompting() {
    let args = interactive_init_args(Some("store"), Some("PHIL-guiding"));
    let mut prompt_io = FakeInitPrompt { terminal: true, ..Default::default() };

    let prefixes = syu::init::resolve_interactive_id_prefixes(&args, StarterTemplate::Generic, &mut prompt_io)
        .expect("explicit overrides should bypass prompting");

    assert_eq!(prefixes.philosophy, "PHIL-GUIDING");
    assert_eq!(prefixes.policy, "POL-STORE");
    assert!(prompt_io.prompts.is_empty());
}

#[test]
fn resolve_interactive_id_prefixes_accepts_blank_defaults_and_retries_invalid_values() {
    let default_args = interactive_init_args(Some("store"), None);
    let mut blank_prompt_io = FakeInitPrompt {
        terminal: true,
        lines: std::collections::VecDeque::from([String::new()]),
        ..Default::default()
    };

    let blank_prefixes = syu::init::resolve_interactive_id_prefixes(&default_args, StarterTemplate::Generic, &mut blank_prompt_io)
        .expect("blank prompt should keep the default shared stem");
    assert_eq!(blank_prefixes.requirement, "REQ-STORE");

    let retry_args = interactive_init_args(None, None);
    let mut retry_prompt_io = FakeInitPrompt {
        terminal: true,
        lines: std::collections::VecDeque::from(["REQ-STORE".to_string(), "store".to_string()]),
        ..Default::default()
    };

    let retry_prefixes = syu::init::resolve_interactive_id_prefixes(&retry_args, StarterTemplate::Generic, &mut retry_prompt_io)
        .expect("interactive prompt should retry invalid shared stems");
    assert_eq!(retry_prefixes.feature, "FEAT-STORE");
    assert_eq!(retry_prompt_io.prompts.len(), 2);
}
