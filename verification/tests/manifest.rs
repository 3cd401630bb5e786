use xtask::manifest::{base_version, is_semver};

#[test]
fn base_version_is_read_from_the_package_table() {
    assert_eq!(base_version(Some("[package]\nname = \"core\"\nversion = \"1.2.0\"\n")), "1.2.0");
    assert_eq!(base_version(Some("package = { version = \"10.0.27\" }")), "10.0.27");
    assert_eq!(base_version(Some("package.version = \"3.4.5\"")), "3.4.5");
}

#[test]
fn base_version_defaults_without_a_manifest() {
    assert_eq!(base_version(None), "0.1.0");
}

#[test]
fn base_version_defaults_for_a_broken_manifest() {
    assert_eq!(base_version(Some("[package")), "0.1.0");
    assert_eq!(base_version(Some("version = = 1")), "0.1.0");
}

#[test]
fn base_version_defaults_where_the_field_is_missing() {
    assert_eq!(base_version(Some("")), "0.1.0");
    assert_eq!(base_version(Some("version = \"1.2.3\"")), "0.1.0");
    assert_eq!(base_version(Some("[package]\nname = \"core\"\n")), "0.1.0");
    assert_eq!(base_version(Some("package = \"1.2.3\"")), "0.1.0");
    assert_eq!(base_version(Some("package = [\"version\"]")), "0.1.0");
    assert_eq!(base_version(Some("[workspace.package]\nversion = \"1.2.3\"\n")), "0.1.0");
}

#[test]
fn base_version_defaults_where_the_field_is_no_string() {
    assert_eq!(base_version(Some("[package]\nversion = 1\n")), "0.1.0");
    assert_eq!(base_version(Some("[package]\nversion = 1.2\n")), "0.1.0");
    assert_eq!(base_version(Some("[package]\nversion = { workspace = true }\n")), "0.1.0");
    assert_eq!(base_version(Some("[package.version]\nmajor = \"1\"\n")), "0.1.0");
}

#[test]
fn base_version_defaults_where_the_field_is_malformed() {
    assert_eq!(base_version(Some("[package]\nversion = \"1.2\"\n")), "0.1.0");
    assert_eq!(base_version(Some("[package]\nversion = \"1.2.3-beta\"\n")), "0.1.0");
    assert_eq!(base_version(Some("[package]\nversion = \"\"\n")), "0.1.0");
    assert_eq!(base_version(Some("[package]\nversion = \"v1.2.3\"\n")), "0.1.0");
}

#[test]
fn semantic_versions_are_three_numbers() {
    assert!(is_semver("0.1.0"));
    assert!(is_semver("1.2.3"));
    assert!(is_semver("10.200.3000"));
    assert!(is_semver("007.0.0"));
    assert!(!is_semver(""));
    assert!(!is_semver("1"));
    assert!(!is_semver("1.2"));
    assert!(!is_semver("1.2."));
    assert!(!is_semver(".1.2"));
    assert!(!is_semver("1..2"));
    assert!(!is_semver("1.2.3."));
    assert!(!is_semver("1.2.3.4"));
    assert!(!is_semver("1.2.x"));
    assert!(!is_semver("1.2.3 "));
    assert!(!is_semver("1-2-3"));
    assert!(!is_semver("\u{0661}.2.3"));
}
