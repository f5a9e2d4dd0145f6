use host_agent::listing::{entry_info, goes_before, key_less, permission_text, sort_entries, FileInfo};

fn entry(name: &str, is_dir: bool) -> FileInfo {
    entry_info(name.to_string(), format!("/d/{}", name), is_dir, 7, 0, 0o644)
}

fn names(v: &[FileInfo]) -> Vec<String> {
    v.iter().map(|f| if f.is_dir { format!("{}/", f.name) } else { f.name.clone() }).collect()
}

#[test]
fn directories_first_then_case_insensitive() {
    let given = vec![entry("b.txt", false), entry("A", true), entry("a.txt", false), entry("B", true)];
    let sorted = sort_entries(given);
    assert_eq!(names(&sorted), vec!["A/", "B/", "a.txt", "b.txt"]);
}

#[test]
fn case_is_ignored_within_a_group() {
    let given = vec![entry("Zeta", false), entry("alpha", false), entry("Beta", false)];
    let sorted = sort_entries(given);
    assert_eq!(names(&sorted), vec!["alpha", "Beta", "Zeta"]);
}

#[test]
fn empty_listing() {
    assert!(sort_entries(Vec::new()).is_empty());
}

#[test]
fn order_of_keys() {
    assert!(key_less("a", "b"));
    assert!(key_less("a", "ab"));
    assert!(!key_less("ab", "a"));
    assert!(!key_less("a", "a"));
    assert!(goes_before(true, "z", false, "a"));
    assert!(!goes_before(false, "a", true, "z"));
}

#[test]
fn entry_fields() {
    let d = entry_info("d".to_string(), "/x/d".to_string(), true, 4096, 12, 0o40755);
    assert_eq!(d.size, 0);
    assert_eq!(d.permissions, "755");
    let f = entry_info("f".to_string(), "/x/f".to_string(), false, 10, 12, 0o100600);
    assert_eq!(f.size, 10);
    assert_eq!(f.modified, 12);
    assert_eq!(permission_text(0o7), "7");
    assert_eq!(permission_text(0o10), "10");
    assert_eq!(permission_text(0), "0");
}

#[test]
fn directories_and_files_with_the_same_name() {
    let given = vec![entry("x", false), entry("X", true), entry("a", false)];
    let sorted = sort_entries(given);
    assert_eq!(names(&sorted), vec!["X/", "a", "x"]);
}
