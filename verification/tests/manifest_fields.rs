use create_v1_app::manifest::{confirm_package_manager, get_package_json};

#[test]
fn manifest_fields_are_extracted_and_version_stripped() {
    let p = get_package_json("{\"name\":\"acme\",\"packageManager\":\"pnpm@9.0.0\"}").unwrap();
    assert_eq!(p.name, "acme");
    assert_eq!(p.package_manager, "pnpm");
}

#[test]
fn manager_without_version_is_kept_whole() {
    let p = get_package_json("{\"name\":\"acme\",\"packageManager\":\"yarn\"}").unwrap();
    assert_eq!(p.package_manager, "yarn");
}

#[test]
fn missing_fields_are_configuration_errors() {
    let e = get_package_json("{\"packageManager\":\"npm@10\"}").unwrap_err();
    assert_eq!(e.message(), "name not found in package.json");
    let e = get_package_json("{\"name\":\"acme\"}").unwrap_err();
    assert_eq!(e.message(), "packageManager not found in package.json");
    let e = get_package_json("{\"name\":\"acme\",\"packageManager\":7}").unwrap_err();
    assert_eq!(e.message(), "packageManager not found in package.json");
    assert!(get_package_json("not json at all").is_err());
}

#[test]
fn given_package_manager_wins_over_the_interactive_choice() {
    assert_eq!(confirm_package_manager(Some("bun"), "npm"), "bun");
    assert_eq!(confirm_package_manager(None, "npm"), "npm");
}
