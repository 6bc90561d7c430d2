use boilerplato::ignore::{check_excludes, is_fixed_ignored};
use boilerplato::pathutil::{base_name, extension_of, join_rel, join_segments, normalize_path};

#[test]
fn test_normalize_path_resolves_dots() {
    assert_eq!(normalize_path("./a/b"), Some(vec!["a".to_string(), "b".to_string()]));
    assert_eq!(normalize_path("a/../b"), Some(vec!["b".to_string()]));
    assert_eq!(normalize_path("."), Some(Vec::new()));
    assert_eq!(normalize_path("a//b/./c"), Some(vec![
        "a".to_string(),
        "b".to_string(),
        "c".to_string(),
    ]));
    // Climbing above the start has no normal form.
    assert_eq!(normalize_path(".."), None);
    assert_eq!(normalize_path("a/../../b"), None);
}

#[test]
fn test_join_segments_and_join_rel() {
    assert_eq!(join_segments(&vec!["a".to_string(), "b".to_string()]), "a/b");
    assert_eq!(join_segments(&Vec::new()), "");
    assert_eq!(join_rel("", "x"), "x");
    assert_eq!(join_rel("a/b", "x"), "a/b/x");
}

#[test]
fn test_base_name() {
    assert_eq!(base_name("/tmp/foo"), Some("foo".to_string()));
    assert_eq!(base_name("/tmp/foo/"), Some("foo".to_string()));
    assert_eq!(base_name("foo"), Some("foo".to_string()));
    assert_eq!(base_name("/"), None);
    assert_eq!(base_name("/tmp/.."), None);
}

#[test]
fn test_extension_of() {
    assert_eq!(extension_of("index.boiler"), Some("boiler".to_string()));
    assert_eq!(extension_of("archive.tar.gz"), Some("gz".to_string()));
    assert_eq!(extension_of(".gitignore"), None);
    assert_eq!(extension_of("plain"), None);
    assert_eq!(extension_of("trailing."), Some("".to_string()));
}

#[test]
fn test_fixed_ignore_set() {
    for name in [
        ".git",
        "node_modules",
        "boilerplato.json",
        "boilerplato.yaml",
        "boilerplato.yml",
        ".boilerplatoignore",
    ] {
        assert!(is_fixed_ignored(name), "{} must be ignored", name);
    }
    assert!(!is_fixed_ignored("src"));
    assert!(!is_fixed_ignored(".gitignore"));
}

#[test]
fn test_check_excludes() {
    assert!(check_excludes(""));
    assert!(check_excludes("   "));
    assert!(check_excludes("false"));
    assert!(check_excludes("  FALSE  "));
    assert!(check_excludes("False"));
    assert!(!check_excludes("true"));
    assert!(!check_excludes("0"));
    assert!(!check_excludes("falsey"));
}
