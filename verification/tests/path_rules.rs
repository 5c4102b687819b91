use assetsync::path_check::validate_path;

#[test]
fn accepts_plain_relative_paths() {
    assert!(validate_path("a.bin"));
    assert!(validate_path("models/base.onnx"));
    assert!(validate_path("a/b/c"));
    assert!(validate_path("...")); // three dots name an ordinary file
    assert!(validate_path("a/./b"));
    assert!(validate_path("a//b"));
}

#[test]
fn accepts_parent_segments_that_stay_inside() {
    assert!(validate_path("a/../b"));
    assert!(validate_path("a/b/../c"));
}

#[test]
fn rejects_escaping_paths() {
    assert!(!validate_path("../../etc/passwd"));
    assert!(!validate_path(".."));
    assert!(!validate_path("a/../../b"));
}

#[test]
fn rejects_paths_that_resolve_to_the_root_itself() {
    assert!(!validate_path(""));
    assert!(!validate_path("a/.."));
    assert!(!validate_path("."));
    assert!(!validate_path("./"));
}

#[test]
fn rejects_any_backslash_outright() {
    // a backslash separates on some hosts and names an ordinary file on
    // others; under the second reading these would leave the root
    assert!(!validate_path("a\\b/../../x"));
    assert!(!validate_path("a\\b"));
    assert!(!validate_path("..\\x"));
    assert!(!validate_path("a\\..\\..\\b"));
    assert!(!validate_path("\\windows"));
}

#[test]
fn rejects_absolute_and_drive_style_paths() {
    assert!(!validate_path("/etc/passwd"));
    assert!(!validate_path("C:\\windows"));
    assert!(!validate_path("C:/x"));
}
