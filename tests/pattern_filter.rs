use pathfilter::{IgnorePath, RegexFilter};
use regex::Regex;

#[test]
fn regex_filter_str() {
    let filter = RegexFilter::new_str("^(.*)\\.rs$").unwrap();
    assert!(filter.ignore("src/lib.rs"));
    assert!(filter.ignore("src/main.rs"));
    assert!(!filter.ignore("src/Program.cs"));
}

#[test]
fn regex_regex_filter() {
    let filter = RegexFilter::new(Regex::new("^src/lib.rs$").unwrap());
    assert!(filter.ignore("src/lib.rs"));
    assert!(!filter.ignore("src/Program.cs"));
}

#[test]
fn regex_scenario_anchored_pattern() {
    let filter = RegexFilter::new_str("^src/lib\\.rs$").unwrap();
    assert!(filter.ignore("src/lib.rs"));
    assert!(!filter.ignore("src/main.rs"));
    assert!(!filter.ignore("src/libxrs"));
}

#[test]
fn regex_invalid_pattern_is_an_error() {
    assert!(RegexFilter::new_str("bad[regex").is_err());
    assert!(RegexFilter::new_str("foo(bar").is_err());
    assert!("bad[regex".parse::<RegexFilter>().is_err());
}

#[test]
fn regex_matches_anywhere_in_the_path() {
    let filter = RegexFilter::new_str("target").unwrap();
    assert!(filter.ignore("project/target/debug/app"));
    assert!(!filter.ignore("project/src/main.rs"));
    let separators = RegexFilter::new_str("a/b").unwrap();
    assert!(separators.ignore("x/a/b/y"));
}

#[test]
fn regex_agrees_with_the_engine() {
    let pattern = "^(src|tests)/.*\\.rs$";
    let filter = RegexFilter::new_str(pattern).unwrap();
    let engine = Regex::new(pattern).unwrap();
    for path in ["src/lib.rs", "tests/a.rs", "benches/b.rs", "src/lib.rs.bak", ""] {
        assert_eq!(filter.ignore(path), engine.is_match(path), "{}", path);
    }
}

#[test]
fn regex_decided_from_text() {
    let filter = RegexFilter::new_str("\\.rs$").unwrap();
    assert!(filter.ignore_text(Some("src/lib.rs")));
    assert!(!filter.ignore_text(Some("src/lib.txt")));
    assert!(!filter.ignore_text(None));
}

#[test]
fn regex_keeps_its_source() {
    let filter = RegexFilter::new_str("^src/.*$").unwrap();
    assert_eq!(filter.pattern(), "^src/.*$");
    let parsed: RegexFilter = "a+b".parse().unwrap();
    assert_eq!(parsed.pattern(), "a+b");
    assert!(parsed.ignore("xaab"));
}

#[test]
fn regex_rebuilt_from_source_behaves_the_same() {
    let original = RegexFilter::new_str("^(.*)\\.(rs|toml)$").unwrap();
    let rebuilt = RegexFilter::new_str(original.pattern()).unwrap();
    for path in ["src/lib.rs", "Cargo.toml", "README.md", "a.rs.bak"] {
        assert_eq!(original.ignore(path), rebuilt.ignore(path));
    }
}

#[test]
fn regex_parse_agrees_with_new_str() {
    for pattern in ["^src/", "\\.rs$", "bad[regex", "a|b", "("] {
        let parsed = pattern.parse::<RegexFilter>();
        let built = RegexFilter::new_str(pattern);
        assert_eq!(parsed.is_ok(), built.is_ok(), "{}", pattern);
        if let (Ok(p), Ok(b)) = (parsed, built) {
            for path in ["src/lib.rs", "a", "b.txt", "tests/x.rs"] {
                assert_eq!(p.ignore(path), b.ignore(path));
            }
        }
    }
}

#[test]
fn regex_from_str_and_from_engine_agree() {
    let pattern = "^(src|tests)/";
    let from_str = RegexFilter::new_str(pattern).unwrap();
    let from_engine = RegexFilter::new(Regex::new(pattern).unwrap());
    let copy = from_str.clone();
    for path in ["src/lib.rs", "tests/a.rs", "benches/b.rs", "srcx/a"] {
        assert_eq!(from_str.ignore(path), from_engine.ignore(path), "{}", path);
        assert_eq!(copy.ignore(path), from_str.ignore(path), "{}", path);
    }
    assert_eq!(copy.pattern(), pattern);
}
