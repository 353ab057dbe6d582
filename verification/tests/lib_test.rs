use ani_gui_core::{version_with_dev, VERSION};

#[test]
fn version_with_dev_appends_suffix_only_in_dev() {
    assert_eq!(version_with_dev("0.9.0", true), "0.9.0-dev");
    assert_eq!(version_with_dev("0.9.0", false), "0.9.0");
}

#[test]
fn version_string_looks_like_semver() {
    let parts: Vec<&str> = VERSION.split('.').collect();
    assert!(parts.len() >= 2, "CARGO_PKG_VERSION should be semver-shaped: {VERSION}");
}
