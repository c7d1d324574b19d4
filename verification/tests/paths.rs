use short::paths::{base_name, is_absolute, join, parent, strip_prefix};

#[test]
fn join_paths() {
    assert_eq!(join("/a", "b"), "/a/b");
    assert_eq!(join("/a/", "b"), "/a/b");
    assert_eq!(join("/a", "./b"), "/a/b");
    assert_eq!(join("/a", "/b"), "/b");
}

#[test]
fn base_name_of_path() {
    assert_eq!(base_name("/a/b.txt"), "b.txt");
    assert_eq!(base_name("b.txt"), "b.txt");
    assert_eq!(base_name("/a/"), "");
}

#[test]
fn parent_of_path() {
    assert_eq!(parent("a/b"), "a");
    assert_eq!(parent("/a/b/c"), "/a/b");
    assert_eq!(parent("a"), "");
}

#[test]
fn strip_prefix_of_path() {
    assert_eq!(strip_prefix("/a/b", "/a"), Some("b".to_string()));
    assert_eq!(strip_prefix("/a/b", "/a/"), Some("b".to_string()));
    assert_eq!(strip_prefix("/a/b", "/a/b"), Some("".to_string()));
    assert_eq!(strip_prefix("/a/b", "/c"), None);
    assert_eq!(strip_prefix("/abc", "/ab"), None);
}

#[test]
fn absolute_paths() {
    assert!(is_absolute("/a"));
    assert!(!is_absolute("a/b"));
    assert!(!is_absolute(""));
}
