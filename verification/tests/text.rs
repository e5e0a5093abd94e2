use maki_sandbox::glob::{glob_match, GlobWalk, WalkEntry};
use maki_sandbox::json::Json;
use maki_sandbox::text::{
    decimal_i32, decimal_u64, join_list, join_path, lines_of, parse_i32, split, strip_prefix,
    text_not_after,
};

#[test]
fn numerals() {
    assert_eq!(decimal_u64(0), "0");
    assert_eq!(decimal_u64(u64::MAX), "18446744073709551615");
    assert_eq!(decimal_i32(i32::MIN), "-2147483648");
    assert_eq!(decimal_i32(42), "42");
    assert_eq!(parse_i32("007"), Some(7));
    assert_eq!(parse_i32("2147483647"), Some(i32::MAX));
    assert_eq!(parse_i32("-0"), Some(0));
    assert_eq!(parse_i32("٣"), None);
}

#[test]
fn splitting() {
    assert_eq!(split("a,b,,c", ","), vec!["a", "b", "", "c"]);
    assert_eq!(split("", ","), vec![""]);
    assert_eq!(split("aaa", "aa"), vec!["", "a"]);
    assert_eq!(split("ab", ""), vec!["", "a", "b", ""]);
    for (t, s) in [("x--y--", "--"), ("ü", ""), ("a b", "c")] {
        let want: Vec<&str> = t.split(s).collect();
        assert_eq!(split(t, s), want);
    }
}

#[test]
fn lines() {
    for t in ["", "a", "a\n", "a\r\nb", "a\r", "\n\nx\r\n", "a\r\r\nb\n"] {
        let want: Vec<&str> = t.lines().collect();
        assert_eq!(lines_of(t), want);
    }
}

#[test]
fn joining() {
    assert_eq!(join_path("/a", "b"), "/a/b");
    assert_eq!(join_path("/a/", "b"), "/a/b");
    assert_eq!(join_path("/a", "/b"), "/b");
    assert_eq!(join_path("", "b"), "b");
    assert_eq!(join_path("/a", ""), "/a/");
    assert_eq!(join_list(&[], ", "), "");
    assert_eq!(join_list(&["a".into(), "b".into(), "c".into()], ", "), "a, b, c");
    assert_eq!(strip_prefix("~/x", "~/"), Some("x".into()));
    assert_eq!(strip_prefix("~", "~/"), None);
}

#[test]
fn ordering() {
    let words = ["", "A", "a", "aa", "b", "ä", "\u{10000}", "\u{ffff}"];
    for x in words {
        for y in words {
            assert_eq!(text_not_after(x, y), x <= y, "{x:?} {y:?}");
        }
    }
}

#[test]
fn patterns() {
    assert!(glob_match("*.rs", "main.rs"));
    assert!(!glob_match("*.rs", "main.rst"));
    assert!(glob_match("?", "ü"));
    assert!(!glob_match("?", ""));
    assert!(glob_match("a*b*c", "aXbYbZc"));
    assert!(!glob_match("a*c", "a/c"));
    assert!(glob_match("**", "abc"));
    assert!(glob_match("", ""));
    assert!(!glob_match("", "a"));
}

fn found(path: &str, name: &str, is_dir: bool) -> WalkEntry {
    WalkEntry {
        path: path.into(),
        name: Some(name.into()),
        is_dir,
    }
}

#[test]
fn walking() {
    let mut w = GlobWalk::start("/r", "src/**/*.rs", 2);
    assert_eq!(w.next_dir(), Some("/r/src/".into()));
    w.visit(&[
        found("/r/src/a.rs", "a.rs", false),
        found("/r/src/.git", ".git", true),
        found("/r/src/node_modules", "node_modules", true),
        found("/r/src/sub", "sub", true),
        found("/r/src/b.txt", "b.txt", false),
    ]);
    assert_eq!(w.next_dir(), Some("/r/src/sub".into()));
    w.visit(&[
        found("/r/src/sub/c.rs", "c.rs", false),
        found("/r/src/sub/d.rs", "d.rs", false),
        found("/r/src/sub/deep", "deep", true),
    ]);
    assert_eq!(w.next_dir(), None);
    assert_eq!(w.found, vec!["/r/src/a.rs", "/r/src/sub/c.rs"]);
}

#[test]
fn the_last_segment_of_a_pattern_counts() {
    let mut w = GlobWalk::start("/d", "**/**/*.rs", 10);
    assert_eq!(w.next_dir(), Some("/d/".into()));
    w.visit(&[found("/d/x.rs", "x.rs", false)]);
    assert_eq!(w.next_dir(), None);
    assert_eq!(w.found, vec!["/d/x.rs"]);
    let mut w = GlobWalk::start("/d", "src/**/skipped/**/?.rs", 10);
    assert_eq!(w.suffix, "?.rs");
    assert_eq!(w.next_dir(), Some("/d/src/".into()));
    let w = GlobWalk::start("/d", "*.rs", 10);
    assert_eq!((w.stack, w.suffix), (vec!["/d".into()], "*.rs".into()));
}

#[test]
fn json_texts() {
    let j = Json::parse(b"{\"a\":1,\"b\":[true,null,\"x\"],\"a\":2}").unwrap();
    assert_eq!(j.to_text(), "{\"a\":2,\"b\":[true,null,\"x\"]}");
    assert_eq!(j.get("a"), Some(&Json::Uint(2)));
    assert_eq!(j.get("z"), None);
    assert_eq!(j.copy(), j);
    assert_eq!(Json::parse_text("-5").unwrap(), Json::Int(-5));
    assert_eq!(Json::Uint(u64::MAX).to_bytes(), b"18446744073709551615");
    assert_eq!(Json::Int(i64::MIN).to_text(), "-9223372036854775808");
    let f = Json::parse_text("1.5").unwrap();
    assert!(matches!(f, Json::Float(_)));
    assert_eq!(f.to_text(), "1.5");
    assert!(Json::parse(b"[1,").unwrap_err().contains("EOF"));
    let dup = Json::Object(vec![
        ("k".into(), Json::Uint(1)),
        ("l".into(), Json::Uint(2)),
        ("k".into(), Json::Uint(3)),
    ]);
    assert_eq!(dup.get("k"), Some(&Json::Uint(3)));
    assert_eq!(dup.to_text(), "{\"k\":3,\"l\":2}");
    assert_eq!(Json::Str("a".into()).as_str(), Some("a"));
    assert!(Json::Object(vec![]).is_object());
}

#[test]
fn nesting_limit_of_the_reader() {
    let deep = |n: usize| {
        let mut j = Json::Array(vec![]);
        for _ in 1..n {
            j = Json::Array(vec![j]);
        }
        j
    };
    assert!(Json::parse(&deep(127).to_bytes()).is_ok());
    assert!(Json::parse(&deep(128).to_bytes()).is_err());
}
