use host_agent::paths::{
    join_path, parent_length, path_depth, path_is_under, skip_separators, str_contains, str_ends_with,
};

#[test]
fn substring_and_suffix() {
    assert!(str_contains("/home/.ssh-backup/x", ".ssh"));
    assert!(!str_contains("/home/u", ".ssh"));
    assert!(str_contains("abc", ""));
    assert!(str_ends_with("/home/u/id.key", ".key"));
    assert!(!str_ends_with("/home/u/id.keyx", ".key"));
    assert!(!str_ends_with("ey", ".key"));
}

#[test]
fn component_counts() {
    assert_eq!(path_depth("/"), 1);
    assert_eq!(path_depth("/home/u/x"), 4);
    assert_eq!(path_depth("/home//u/"), 3);
    assert_eq!(path_depth("a/b"), 2);
    assert_eq!(path_depth(""), 0);
}

#[test]
fn component_prefix() {
    assert!(path_is_under("/home", "/home"));
    assert!(path_is_under("/home/u", "/home"));
    assert!(path_is_under("/home/u", "/home/"));
    assert!(!path_is_under("/home2", "/home"));
    assert!(!path_is_under("/ho", "/home"));
    assert!(path_is_under("/etc", "/"));
    assert!(!path_is_under("etc", "/"));
    assert!(path_is_under("/home//u", "/home"));
    assert!(path_is_under("/a/b/c", "/a//b/"));
    assert!(!path_is_under("/a/bc", "/a/b"));
    assert!(!path_is_under("/a", "a"));
    assert!(path_is_under("anything", ""));
}

#[test]
fn parents_and_joins() {
    assert_eq!(parent_length("/a/b/c", 6), Some(4));
    assert_eq!(parent_length("/a/b/", 5), Some(2));
    assert_eq!(parent_length("/a", 2), Some(1));
    assert_eq!(parent_length("/", 1), None);
    assert_eq!(parent_length("file", 4), None);
    assert_eq!(skip_separators("/a//b", 2), 4);
    assert_eq!(join_path("/tmp".to_string(), "x/y"), "/tmp/x/y");
    assert_eq!(join_path("/".to_string(), "x"), "/x");
    assert_eq!(join_path("/tmp".to_string(), ""), "/tmp");
}
