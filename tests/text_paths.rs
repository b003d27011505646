use prex::paths::{data_dir, join, logs_dir};
use prex::sorting::numeric_id;
use prex::text::{all_ascii_digits, find_char, has_prefix, replace_text, same_text};

#[test]
fn path_joins() {
    assert_eq!(join("/a", "b"), "/a/b");
    assert_eq!(join("/a/", "b"), "/a/b");
    assert_eq!(join("/a", "/b"), "/b");
    assert_eq!(join("", "b"), "b");
}

#[test]
fn numeric_ids() {
    assert_eq!(numeric_id("0042"), 42);
    assert_eq!(numeric_id("18446744073709551615"), u64::MAX);
    assert_eq!(numeric_id("18446744073709551616"), 0);
    assert_eq!(numeric_id(""), 0);
    assert_eq!(numeric_id("12a"), 0);
}

#[test]
fn text_helpers() {
    assert!(same_text("ab", "ab"));
    assert!(!same_text("ab", "abc"));
    assert!(has_prefix("Proton 9", "Proton"));
    assert!(!has_prefix("Pro", "Proton"));
    assert!(all_ascii_digits("0123"));
    assert!(all_ascii_digits(""));
    assert!(!all_ascii_digits("12x"));
    assert_eq!(find_char("a=b=c", '='), Some(1));
    assert_eq!(find_char("abc", '='), None);
    assert_eq!(replace_text("x %c% y %c%", "%c%", "Z"), ("x Z y Z".to_string(), true));
    assert_eq!(replace_text("%c", "%c%", "Z"), ("%c".to_string(), false));
}

#[test]
fn data_locations_agree() {
    if let (Ok(d), Ok(l)) = (data_dir(), logs_dir()) {
        assert_eq!(l, join(&d, "logs"));
    }
}

#[test]
fn containment_by_components() {
    assert!(prex::paths::path_within("/a/pfx/x.exe", "/a/pfx"));
    assert!(prex::paths::path_within("/a/pfx", "/a/pfx"));
    assert!(!prex::paths::path_within("/a/pfx2/x.exe", "/a/pfx"));
    assert!(prex::paths::path_within("/x", "/"));
}
