use syu::doctor::{
    build_doctor_report, build_playwright_check, dependency_install_needs_refresh, home_dir_from,
    playwright_cache_roots_from, surface_checks, workspace_config_check, PackageMetadataRead, SurfaceProbe,
    build_node_check, build_npm_check, build_rust_msrv_check, expected_npm_version,
    parse_major_version, parse_numeric_version, render_doctor_text, rust_version_of_line,
    shell_workspace_arg, surface_check_id, surface_label, version_at_least, DoctorCheck,
    DoctorStatus, DoctorSummary, PackageMetadata,
};

fn check(id: &'static str, label: &'static str, status: DoctorStatus) -> DoctorCheck {
    DoctorCheck { id, label, status, message: String::new(), fix: None }
}

#[test]
fn summary_counts_each_status() {
    let summary = DoctorSummary::from_checks(&vec![
        check("a", "A", DoctorStatus::Passed),
        check("b", "B", DoctorStatus::Warning),
        check("c", "C", DoctorStatus::Error),
        check("d", "D", DoctorStatus::Skipped),
    ]);

    assert_eq!(summary.ok, 1);
    assert_eq!(summary.warning, 1);
    assert_eq!(summary.error, 1);
    assert_eq!(summary.skipped, 1);
}

#[test]
fn summary_counts_add_up_to_the_number_of_checks() {
    let checks = vec![
        check("a", "A", DoctorStatus::Warning),
        check("b", "B", DoctorStatus::Warning),
        check("c", "C", DoctorStatus::Passed),
    ];
    let summary = DoctorSummary::from_checks(&checks);
    assert_eq!(summary.ok + summary.warning + summary.error + summary.skipped, checks.len());
    assert_eq!(summary.warning, 2);
}

#[test]
fn doctor_status_labels_cover_all_variants() {
    assert_eq!(DoctorStatus::Passed.label(), "ok");
    assert_eq!(DoctorStatus::Warning.label(), "warning");
    assert_eq!(DoctorStatus::Error.label(), "error");
    assert_eq!(DoctorStatus::Skipped.label(), "skipped");
}

#[test]
fn parses_major_versions_from_prefixed_strings() {
    assert_eq!(parse_major_version("v25.1.0").as_deref(), Some("25"));
    assert_eq!(parse_major_version("rustc 1.88.1 (abc)").as_deref(), Some("1"));
}

#[test]
fn parses_numeric_version_segments() {
    assert_eq!(parse_numeric_version("npm 11.8.0"), vec![11, 8, 0]);
    assert_eq!(parse_numeric_version("1.88"), vec![1, 88]);
    assert!(parse_numeric_version("not-a-version").is_empty());
}

#[test]
fn compares_versions_by_numeric_segments() {
    assert!(version_at_least("rustc 1.88.1 (abc)", "1.88"));
    assert!(version_at_least("11.8.0", "11.8.0"));
    assert!(!version_at_least("1.87.0", "1.88"));
    assert!(version_at_least("1.88", "1.88.0"));
}

#[test]
fn version_comparison_handles_missing_non_zero_tail() {
    assert!(!version_at_least("1", "1.0.1"));
}

#[test]
fn version_comparison_is_reflexive() {
    for v in ["1", "1.88.0", "v25.1.0", "npm 11.8.0"] {
        assert!(version_at_least(v, v));
    }
}

#[test]
fn shell_workspace_arg_quotes_special_paths() {
    assert_eq!(shell_workspace_arg("."), ".");
    assert_eq!(shell_workspace_arg("/tmp/doctor's workspace"), "'/tmp/doctor'\\''s workspace'");
}

#[test]
fn surface_ids_and_labels_cover_known_surfaces() {
    assert_eq!(surface_check_id("app", "node"), "app-node");
    assert_eq!(surface_check_id("website", "deps"), "website-deps");
    assert_eq!(surface_check_id("other", "node"), "surface-check");
    assert_eq!(surface_label("Browser app", "Node"), "Browser app Node");
    assert_eq!(surface_label("Docs site", "dependencies"), "Docs site dependencies");
    assert_eq!(surface_label("Other", "Node"), "Surface check");
}

#[test]
fn expected_npm_version_only_accepts_npm_prefixes() {
    assert_eq!(
        expected_npm_version(&PackageMetadata { package_manager: Some("npm@11.8.0".to_string()) }),
        Some("11.8.0".to_string())
    );
    assert_eq!(
        expected_npm_version(&PackageMetadata { package_manager: Some("pnpm@9.0.0".to_string()) }),
        None
    );
    assert_eq!(expected_npm_version(&PackageMetadata { package_manager: None }), None);
}

#[test]
fn node_check_warns_on_major_version_mismatch() {
    let check = build_node_check("Browser app", "app", Some("24"), "app/.nvmrc", "v25.1.0");
    assert_eq!(check.id, "app-node");
    assert_eq!(check.label, "Browser app Node");
    assert_eq!(check.status, DoctorStatus::Warning);
    assert_eq!(check.message, "current v25.1.0; `app/.nvmrc` expects Node 24");
    assert_eq!(check.fix.as_deref(), Some("Switch runtimes with `nvm use \"$(cat app/.nvmrc)\"`."));

    let matching = build_node_check("Browser app", "app", Some("25"), "app/.nvmrc", "v25.1.0");
    assert_eq!(matching.status, DoctorStatus::Passed);
    assert!(matching.fix.is_none());

    let unpinned = build_node_check("Browser app", "app", None, "app/.nvmrc", "v25.1.0");
    assert_eq!(unpinned.message, "found v25.1.0");
}

#[test]
fn npm_check_compares_exact_versions() {
    let check = build_npm_check("Docs site", "website", Some("11.8.0"), "website/package.json", "11.7.0");
    assert_eq!(check.id, "website-npm");
    assert_eq!(check.status, DoctorStatus::Warning);
    assert_eq!(check.message, "current npm 11.7.0; `website/package.json` expects npm 11.8.0");
    let ok = build_npm_check("Docs site", "website", Some("11.8.0"), "website/package.json", "11.8.0");
    assert_eq!(ok.status, DoctorStatus::Passed);
}

#[test]
fn rust_msrv_check_reports_each_outcome() {
    let ok = build_rust_msrv_check("Cargo.toml", Some("1.88"), Ok("rustc 1.90.0".to_string()));
    assert_eq!(ok.id, "rust-msrv");
    assert_eq!(ok.status, DoctorStatus::Passed);
    let old = build_rust_msrv_check("Cargo.toml", Some("1.88"), Ok("rustc 1.80.0".to_string()));
    assert_eq!(old.status, DoctorStatus::Warning);
    assert_eq!(old.message, "current rustc 1.80.0; repository expects at least Rust 1.88");
    let unset = build_rust_msrv_check("Cargo.toml", None, Ok("rustc 1.90.0".to_string()));
    assert_eq!(unset.status, DoctorStatus::Skipped);
    let missing = build_rust_msrv_check("Cargo.toml", Some("1.88"), Err("not found".to_string()));
    assert_eq!(missing.status, DoctorStatus::Error);
}

#[test]
fn rust_version_lines_are_recognised() {
    assert_eq!(rust_version_of_line("rust-version = \"1.88\"").as_deref(), Some("1.88"));
    assert_eq!(rust_version_of_line("name = \"syu\""), None);
}

#[test]
fn doctor_text_lists_every_check() {
    let checks = vec![check("a", "A", DoctorStatus::Passed), check("b", "B", DoctorStatus::Error)];
    let summary = DoctorSummary::from_checks(&checks);
    let text = render_doctor_text("/repo", &summary, &checks);
    assert!(text.contains("/repo"));
    assert!(text.contains("A"));
    assert!(text.contains("B"));
}

fn probe(package: PackageMetadataRead) -> SurfaceProbe {
    SurfaceProbe {
        nvmrc: Some("25\n".to_string()),
        package,
        node_version: Ok("v25.1.0".to_string()),
        npm_version: Ok("11.8.0".to_string()),
        lockfile_present: true,
        node_modules_present: true,
        install_marker_present: true,
        lockfile_modified: Some(10),
        marker_modified: Some(20),
    }
}

fn npm_pinned(version: &str) -> PackageMetadataRead {
    PackageMetadataRead::Read(PackageMetadata { package_manager: Some(format!("npm@{version}")) })
}

#[test]
fn workspace_config_check_warns_when_missing() {
    let warning = workspace_config_check("/tmp/ws/syu.yaml", false, "/tmp/ws");
    assert_eq!(warning.status, DoctorStatus::Warning);
    assert!(warning.fix.as_deref().is_some_and(|fix| fix.contains("syu init")));
    assert_eq!(warning.message, "`/tmp/ws/syu.yaml` is missing, so workspace-specific readiness checks are limited");
    assert_eq!(warning.fix.as_deref(), Some("Run `syu init '/tmp/ws'` first."));

    let ok = workspace_config_check("/tmp/ws/syu.yaml", true, "/tmp/ws");
    assert_eq!(ok.status, DoctorStatus::Passed);
    assert_eq!(ok.message, "found `/tmp/ws/syu.yaml`");
}

#[test]
fn surface_dependency_check_covers_skipped_warning_and_ok_paths() {
    let mut p = probe(npm_pinned("11.8.0"));
    p.lockfile_present = false;
    let skipped = &surface_checks("/tmp/ws", "app", "Browser app", "install", Some(p))[2];
    assert_eq!(skipped.status, DoctorStatus::Skipped);
    assert_eq!(skipped.message, "`/tmp/ws/app/package-lock.json` is not present");

    let mut p = probe(npm_pinned("11.8.0"));
    p.node_modules_present = false;
    let warning = &surface_checks("/tmp/ws", "app", "Browser app", "install", Some(p))[2];
    assert_eq!(warning.status, DoctorStatus::Warning);
    assert!(warning.fix.as_deref().is_some_and(|fix| fix.contains("install")));
    assert_eq!(warning.message, "`/tmp/ws/app/node_modules` is missing or stale compared with `/tmp/ws/app/package-lock.json`");

    let mut p = probe(npm_pinned("11.8.0"));
    p.lockfile_modified = Some(30);
    let stale = &surface_checks("/tmp/ws", "app", "Browser app", "install", Some(p))[2];
    assert_eq!(stale.status, DoctorStatus::Warning);

    let ok = &surface_checks("/tmp/ws", "app", "Browser app", "install", Some(probe(npm_pinned("11.8.0"))))[2];
    assert_eq!(ok.status, DoctorStatus::Passed);
    assert_eq!(ok.message, "`/tmp/ws/app/node_modules` is present and newer than the lockfile marker");
}

#[test]
fn surface_checks_skip_when_package_json_is_missing() {
    let checks = surface_checks("/tmp/ws", "app", "Browser app", "install", None);
    assert_eq!(checks.len(), 3);
    assert!(checks.iter().all(|check| check.status == DoctorStatus::Skipped));
    assert_eq!(checks[0].message, "`/tmp/ws/app/package.json` is not present");
    assert_eq!(checks[2].id, "app-deps");
}

#[test]
fn surface_checks_report_invalid_package_metadata_as_an_error() {
    let checks = surface_checks("/tmp/ws", "app", "Browser app", "install", Some(probe(PackageMetadataRead::Unparsable)));
    let npm_check = checks.iter().find(|check| check.id == "app-npm").expect("npm check should exist");
    assert_eq!(npm_check.status, DoctorStatus::Error);
    assert!(npm_check.message.contains("failed to parse package metadata"));
    assert!(npm_check.fix.as_deref().is_some_and(|fix| fix.contains("pinned npm requirement")));
    let unreadable = surface_checks("/tmp/ws", "app", "Browser app", "install", Some(probe(PackageMetadataRead::Unreadable)));
    assert_eq!(unreadable[1].message, "failed to read package metadata from `/tmp/ws/app/package.json`");
}

#[test]
fn surface_checks_compare_node_and_npm_with_the_pins() {
    let checks = surface_checks("/tmp/ws", "website", "Docs site", "install", Some(probe(npm_pinned("10.0.0"))));
    assert_eq!(checks[0].status, DoctorStatus::Passed);
    assert_eq!(checks[0].message, "current v25.1.0; `/tmp/ws/website/.nvmrc` expects Node 25");
    assert_eq!(checks[1].status, DoctorStatus::Warning);
    assert_eq!(checks[1].label, "Docs site npm");
    let mut p = probe(npm_pinned("11.8.0"));
    p.node_version = Err("`node` was not found on PATH".to_string());
    p.nvmrc = Some("  \n".to_string());
    let missing = surface_checks("/tmp/ws", "app", "Browser app", "install", Some(p));
    assert_eq!(missing[0].status, DoctorStatus::Error);
    assert_eq!(missing[0].message, "`node` was not found on PATH");
    assert_eq!(missing[0].fix.as_deref(), Some("Install Node.js before running browser or docs-site workflows."));
}

#[test]
fn helper_builders_cover_remaining_status_paths() {
    let skipped = build_rust_msrv_check("/tmp/ws/Cargo.toml", None, Ok("rustc 1.88.0".to_string()));
    assert_eq!(skipped.status, DoctorStatus::Skipped);

    let error = build_rust_msrv_check("/tmp/ws/Cargo.toml", Some("1.88"), Err("missing".to_string()));
    assert_eq!(error.status, DoctorStatus::Error);

    let node_without_expectation = build_node_check("Browser app", "app", None, "app/.nvmrc", "v25.0.0");
    assert_eq!(node_without_expectation.status, DoctorStatus::Passed);
    assert_eq!(node_without_expectation.message, "found v25.0.0");

    let npm_warning = build_npm_check("Docs site", "website", Some("10.0.0"), "website/package.json", "11.8.0");
    assert_eq!(npm_warning.status, DoctorStatus::Warning);
    assert!(npm_warning.fix.as_deref().is_some_and(|fix| fix.contains("website/package.json")));

    let npm_without_expectation = build_npm_check("Browser app", "app", None, "app/package.json", "11.8.0");
    assert_eq!(npm_without_expectation.status, DoctorStatus::Passed);
    assert_eq!(npm_without_expectation.message, "found npm 11.8.0");
}

#[test]
fn playwright_helpers_cover_cache_and_status_variants() {
    let skipped = build_playwright_check("/tmp/ws/app", false, false, None);
    assert_eq!(skipped.status, DoctorStatus::Skipped);
    assert_eq!(skipped.message, "`/tmp/ws/app/package.json` is not present");

    let warning = build_playwright_check("/tmp/ws/app", true, false, None);
    assert_eq!(warning.status, DoctorStatus::Warning);
    assert!(warning.message.contains("app dependencies are missing"));
    assert!(warning.fix.as_deref().is_some_and(|fix| fix.contains("pinned-npm.sh exec app -- ci")));

    let no_cache = build_playwright_check("/tmp/ws/app", true, true, None);
    assert_eq!(no_cache.status, DoctorStatus::Warning);
    assert!(no_cache.message.contains("no installed Playwright Chromium bundle"));
    assert!(no_cache.fix.as_deref().is_some_and(|fix| fix.contains("pinned-npm.sh exec app -- exec playwright")));

    let ok = build_playwright_check("/tmp/ws/app", true, true, Some("/tmp/pw-cache/chromium-1000"));
    assert_eq!(ok.status, DoctorStatus::Passed);
    assert_eq!(ok.message, "found an installed Chromium bundle under `/tmp/pw-cache/chromium-1000`");
}

#[test]
fn filesystem_and_env_helpers_cover_fallback_paths() {
    assert_eq!(
        playwright_cache_roots_from(Some("/tmp/playwright"), Some("/tmp/home"), Some("/tmp/local")),
        vec![
            "/tmp/playwright".to_string(),
            "/tmp/home/.cache/ms-playwright".to_string(),
            "/tmp/home/Library/Caches/ms-playwright".to_string(),
            "/tmp/local/ms-playwright".to_string(),
        ]
    );
    assert_eq!(home_dir_from(None, Some("/tmp/profile".to_string())), Some("/tmp/profile".to_string()));
    assert_eq!(home_dir_from(None, None), None);
    assert!(dependency_install_needs_refresh(None, None));
    assert!(dependency_install_needs_refresh(Some(2), Some(1)));
    assert!(!dependency_install_needs_refresh(Some(1), Some(1)));
}

#[test]
fn report_builders_list_every_check_in_order() {
    let report = build_doctor_report(
        "/tmp/ws",
        true,
        Some("1.88"),
        Ok("rustc 1.90.0".to_string()),
        Err("`cargo` was not found on PATH".to_string()),
        None,
        None,
        None,
    );
    let ids: Vec<&str> = report.checks.iter().map(|check| check.id).collect();
    assert_eq!(
        ids,
        vec![
            "workspace-config",
            "rustc-version",
            "cargo-version",
            "rust-msrv",
            "app-node",
            "app-npm",
            "app-deps",
            "website-node",
            "website-npm",
            "website-deps",
            "playwright-chromium",
        ]
    );
    assert_eq!(report.checks[1].message, "found rustc 1.90.0");
    assert_eq!(report.checks[2].status, DoctorStatus::Error);
    assert_eq!(report.checks[3].status, DoctorStatus::Passed);
    assert_eq!((report.summary.ok, report.summary.warning, report.summary.error, report.summary.skipped), (3, 0, 1, 7));
}
