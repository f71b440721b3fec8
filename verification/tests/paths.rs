use bluez_async::path::{
    child_text, parent_text, path_depth, segment_char, segment_text, strip_root, within,
};
use bluez_async::text::{chars_of, has_prefix, same_text, starts_with};

#[test]
fn depth_counts_the_segments() {
    assert_eq!(path_depth("/org"), Some(1));
    assert_eq!(path_depth("/org/bluez/hci0"), Some(3));
    assert_eq!(path_depth("/org/bluez/hci0/dev_11_22_33_44_55_66"), Some(4));
}

#[test]
fn what_is_no_object_path() {
    for text in ["", "/", "org", "/org/", "//org", "/org//bluez", "/org/blue z", "/org/bl\u{fc}z", "/a-b"] {
        assert_eq!(path_depth(text), None, "{:?}", text);
    }
}

#[test]
fn parent_is_what_stands_before_the_last_slash() {
    assert_eq!(parent_text("/org/bluez/hci0"), "/org/bluez");
    assert_eq!(parent_text("/a/b"), "/a");
}

#[test]
fn child_is_parent_slash_segment() {
    assert_eq!(child_text("/org/bluez", "hci0"), "/org/bluez/hci0");
    assert_eq!(parent_text(&child_text("/org/bluez/hci0", "dev_1")), "/org/bluez/hci0");
}

#[test]
fn segments() {
    assert!(segment_text("service0001"));
    assert!(segment_text("dev_AA_bb"));
    assert!(!segment_text(""));
    assert!(!segment_text("a/b"));
    assert!(!segment_text("a.b"));
    assert!(segment_char('_'));
    assert!(segment_char('z'));
    assert!(segment_char('A'));
    assert!(segment_char('0'));
    assert!(!segment_char('/'));
    assert!(!segment_char('-'));
}

#[test]
fn within_a_subtree() {
    assert!(within("/a/b", "/a/b"));
    assert!(within("/a/b/c", "/a/b"));
    assert!(within("/a/b/c/d", "/a/b"));
    assert!(!within("/a/bc", "/a/b"));
    assert!(!within("/a", "/a/b"));
    assert!(!within("/x/b", "/a/b"));
}

#[test]
fn stripping_the_root() {
    assert_eq!(strip_root("/org/bluez/hci0", "/org/bluez/"), Some("hci0".to_string()));
    assert_eq!(strip_root("/org/bluez", "/org/bluez/"), None);
    assert_eq!(strip_root("/org/bluez/", "/org/bluez/"), Some("".to_string()));
    assert_eq!(strip_root("abc", ""), Some("abc".to_string()));
}

#[test]
fn text_helpers() {
    assert_eq!(chars_of("a\u{e9}z"), vec!['a', '\u{e9}', 'z']);
    assert_eq!(chars_of(""), vec![]);
    assert!(same_text("abc", "abc"));
    assert!(!same_text("abc", "abd"));
    assert!(!same_text("abc", "ab"));
    assert!(same_text("", ""));
    assert!(starts_with("service0001", "service"));
    assert!(starts_with("service", "service"));
    assert!(!starts_with("servic", "service"));
    assert!(!starts_with("xservice", "service"));
    assert!(starts_with("anything", ""));
    assert!(has_prefix(&vec!['a', 'b'], &vec!['a']));
    assert!(!has_prefix(&vec!['a', 'b'], &vec!['b']));
}
