use create_v1_app::variant::{
    is_template_file, logical_name_of, rendered_output, select_candidate, should_copy,
    template_core_of, variant_of,
};

fn listing(names: &[&str]) -> Vec<String> {
    names.iter().map(|s| s.to_string()).collect()
}

#[test]
fn template_files_are_recognized_by_their_marker() {
    assert!(is_template_file("package.json.npm.tera"));
    assert!(is_template_file("index.ts.tera"));
    assert!(is_template_file("nested/dir/file.txt.tera"));
    assert!(!is_template_file("README.md"));
    assert!(!is_template_file(".tera"));
    assert!(!is_template_file("dir/.tera"));
}

#[test]
fn core_strips_the_render_marker() {
    assert_eq!(template_core_of("index.ts.tera"), "index.ts");
    assert_eq!(template_core_of("a/b/c.json.tera"), "a/b/c.json");
}

#[test]
fn logical_name_strips_marker_and_variant_tag() {
    assert_eq!(logical_name_of("package.json.npm.tera"), "package.json");
    assert_eq!(logical_name_of("package.json.base.tera"), "package.json");
    assert_eq!(logical_name_of("config.toml.yarn.tera"), "config.toml");
    // `ts` and `yaml` are no variant tags: the logical name keeps them
    assert_eq!(logical_name_of("index.ts.tera"), "index.ts");
    assert_eq!(logical_name_of("pnpm-workspace.yaml.tera"), "pnpm-workspace.yaml");
    assert_eq!(logical_name_of("sub/dir/app.jsx.base.tera"), "sub/dir/app.jsx");
}

#[test]
fn variant_is_the_last_segment_without_the_marker() {
    assert_eq!(variant_of("package.json.npm.tera"), "npm");
    assert_eq!(variant_of("package.json.base.tera"), "base");
    assert_eq!(variant_of("package.json.tera"), "json");
    assert_eq!(variant_of("pnpm-workspace.yaml.tera"), "yaml");
}

#[test]
fn manager_variant_is_preferred() {
    let names = listing(&[
        "package.json.npm.tera",
        "package.json.pnpm.tera",
        "package.json.base.tera",
    ]);
    assert!(!select_candidate("package.json.npm.tera", &names, true, "pnpm"));
    assert!(select_candidate("package.json.pnpm.tera", &names, true, "pnpm"));
    assert!(!select_candidate("package.json.base.tera", &names, true, "pnpm"));
}

#[test]
fn base_is_the_fallback_when_no_variant_matches() {
    let names = listing(&["package.json.npm.tera", "package.json.base.tera"]);
    // no pnpm candidate: the base fallback is chosen
    assert!(select_candidate("package.json.base.tera", &names, true, "pnpm"));
    assert!(!select_candidate("package.json.npm.tera", &names, true, "pnpm"));
    // the npm candidate is present, so under npm it wins and base yields
    assert!(select_candidate("package.json.npm.tera", &names, true, "npm"));
    assert!(!select_candidate("package.json.base.tera", &names, true, "npm"));
}

#[test]
fn a_group_with_neither_match_nor_base_produces_nothing() {
    let names = listing(&["config.txt.npm.tera", "config.txt.yarn.tera"]);
    assert!(!select_candidate("config.txt.npm.tera", &names, false, "bun"));
    assert!(!select_candidate("config.txt.yarn.tera", &names, false, "bun"));
}

#[test]
fn manifest_candidates_apply_only_at_the_root() {
    let names = listing(&["package.json.npm.tera"]);
    assert!(!select_candidate("package.json.npm.tera", &names, false, "npm"));
    assert!(select_candidate("package.json.npm.tera", &names, true, "npm"));
}

#[test]
fn untagged_templates_are_always_chosen() {
    let names = listing(&["index.ts.tera", "README.md"]);
    assert!(select_candidate("index.ts.tera", &names, false, "npm"));
    assert!(select_candidate("index.ts.tera", &names, true, "yarn"));
}

#[test]
fn pnpm_workspace_file_only_under_pnpm() {
    let names = listing(&["pnpm-workspace.yaml.tera"]);
    assert!(!select_candidate("pnpm-workspace.yaml.tera", &names, true, "npm"));
    assert!(!select_candidate("pnpm-workspace.yaml.tera", &names, false, "yarn"));
    assert!(select_candidate("pnpm-workspace.yaml.tera", &names, true, "pnpm"));
    assert_eq!(
        rendered_output("pnpm-workspace.yaml.tera", "packages:\n  - apps/*\n"),
        Some("pnpm-workspace.yaml".to_string())
    );
}

#[test]
fn blank_rendering_is_suppressed() {
    assert_eq!(rendered_output("conditional.txt.tera", ""), None);
    assert_eq!(rendered_output("conditional.txt.tera", " \t\r\n  "), None);
    assert_eq!(
        rendered_output("conditional.txt.tera", " x "),
        Some("conditional.txt".to_string())
    );
}

#[test]
fn copies_follow_the_manifest_rule_at_the_root() {
    assert!(should_copy("README.md", true, "npm"));
    assert!(should_copy("nested/file.txt", false, "npm"));
}

/// What one root-workspace file produces, mirroring the materializer's
/// routing: templates go through group selection and rendering, static
/// files are copied.
fn root_file_dest(name: &str, names: &Vec<String>, pm: &str, rendered: &str) -> Option<String> {
    if is_template_file(name) {
        if select_candidate(name, names, true, pm) {
            rendered_output(name, rendered)
        } else {
            None
        }
    } else if should_copy(name, true, pm) {
        Some(name.to_string())
    } else {
        None
    }
}

fn count_manifests(names: &Vec<String>, pm: &str) -> usize {
    names
        .iter()
        .filter_map(|name| root_file_dest(name, names, pm, "{\"name\":\"x\"}"))
        .filter(|dest| dest == "package.json")
        .count()
}

#[test]
fn exactly_one_manifest_for_every_manager() {
    let names = listing(&[
        "package.json.npm.tera",
        "package.json.yarn.tera",
        "package.json.pnpm.tera",
        "package.json.bun.tera",
        "package.json.base.tera",
        "pnpm-workspace.yaml.tera",
        "README.md",
        "turbo.json",
    ]);
    for pm in ["npm", "yarn", "pnpm", "bun"] {
        assert_eq!(count_manifests(&names, pm), 1, "exactly one root manifest under {}", pm);
    }
}

#[test]
fn a_base_only_tree_still_yields_one_manifest() {
    let names = listing(&["package.json.base.tera", "README.md"]);
    for pm in ["npm", "yarn", "pnpm", "bun"] {
        assert_eq!(count_manifests(&names, pm), 1, "the base fallback serves {}", pm);
    }
}
