use worktree_dashboard::order::{is_name_before, is_path_before};
use worktree_dashboard::paths::{file_name_of, is_same_path};
use worktree_dashboard::text::{
    contains_ignoring_case, contains_text, decimal, delete_word_backward, is_blank, is_whitespace,
    parse_number, starts_with, trim,
};

#[test]
fn whitespace_is_unicode_whitespace() {
    for n in 0u32..=0x10ffff {
        if let Some(c) = char::from_u32(n) {
            assert_eq!(is_whitespace(c), c.is_whitespace(), "{:x}", n);
        }
    }
}

#[test]
fn trimming() {
    for s in ["", " ", " a b ", "\u{2003}x\t", "plain", "\n\n"] {
        assert_eq!(trim(s), s.trim());
        assert_eq!(trim(&trim(s)), s.trim());
        assert_eq!(is_blank(s), s.trim().is_empty());
    }
}

#[test]
fn deleting_words() {
    for (before, after) in [
        ("feature/add-login  ", "feature/add"),
        ("feature/add", "feature"),
        ("feature", ""),
        ("", ""),
        ("   ", ""),
        ("two words", "two"),
        ("trailing/", "trailing"),
        ("a\u{00e9}-\u{00fc}b", "a\u{00e9}"),
        ("-x", ""),
    ] {
        let mut s = before.to_string();
        delete_word_backward(&mut s);
        assert_eq!(s, after, "{:?}", before);
    }
}

#[test]
fn searching() {
    for (s, part) in [("abc", ""), ("abc", "bc"), ("abc", "cb"), ("", "a"), ("", ""), ("aab", "ab")] {
        assert_eq!(contains_text(s, part), s.contains(part));
        assert_eq!(starts_with(s, part), s.starts_with(part));
    }
    assert!(contains_ignoring_case("Feature", "EAT"));
    assert!(!contains_ignoring_case("Feature", "tea"));
    assert!(contains_ignoring_case("STRASSE", "strasse"));
}

#[test]
fn numbers() {
    for n in [0u64, 7, 10, 99, 100, 4294967295, u64::MAX] {
        assert_eq!(decimal(n), n.to_string());
    }
    assert_eq!(parse_number("0012"), Some(12));
    assert_eq!(parse_number("4294967295"), Some(u32::MAX));
    assert_eq!(parse_number("4294967296"), None);
    assert_eq!(parse_number("99999999999999999999999"), None);
    assert_eq!(parse_number(""), None);
    assert_eq!(parse_number("1a"), None);
    assert_eq!(parse_number("-1"), None);
    assert_eq!(parse_number(&decimal(31337)), Some(31337));
}

#[test]
fn names_are_ordered_like_strings() {
    let names = ["", "a", "B", "ab", "\u{00e9}", "\u{1f600}", "\u{ffff}", "a/b", "a-b"];
    for a in names {
        for b in names {
            assert_eq!(is_name_before(a, b), a < b, "{:?} {:?}", a, b);
        }
    }
}

#[test]
fn paths_are_ordered_like_paths() {
    let paths = [
        "", "/", "//", "/.", ".", "./a", "a", "a/.", "a/./b", "a//b", "..", "../a", "a/..", "/..", "/a",
        "/a/", "/a/b", "/a-b", "/a/b/c", "/ab", "/A", "/a b/c", "/a!", "/a/.b", "/\u{00e9}", "/.././",
        "./.", ".a", "./..", "/./a",
    ];
    for a in paths {
        for b in paths {
            assert_eq!(
                is_path_before(a, b),
                std::path::Path::new(a) < std::path::Path::new(b),
                "{:?} {:?}",
                a,
                b
            );
            assert_eq!(
                is_same_path(a, b),
                std::path::Path::new(a) == std::path::Path::new(b),
                "{:?} {:?}",
                a,
                b
            );
        }
        let name = std::path::Path::new(a).file_name().and_then(|n| n.to_str());
        assert_eq!(file_name_of(a), name.unwrap_or_default(), "{:?}", a);
    }
}
