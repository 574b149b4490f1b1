use pathfilter::{ignore_any, ExtensionFilter, ExtensionsFilter, IgnorePath, PathFilter, RegexFilter};
use regex::Regex;

#[test]
fn lib_regex_filter() {
    let filter = PathFilter::new_regex(Regex::new("^src/lib.rs$").unwrap());
    assert!(matches!(filter, PathFilter::Regex(_)));
    assert!(filter.ignore("src/lib.rs"));
    assert!(!filter.ignore("src/Program.cs"));
}

#[test]
fn lib_extension_filter() {
    let filter = PathFilter::new_extension(".rs");
    assert!(matches!(filter, PathFilter::Extension(_)));
    assert!(filter.ignore("test.rs"));
    assert!(filter.ignore("src/lib.rs"));
    assert!(filter.ignore("src/main.rs"));
    assert!(!filter.ignore("src/Program.cs"));
}

#[test]
fn lib_extensions_filter() {
    let filter = PathFilter::new_extensions(&[".rs", ".txt"]);
    assert!(matches!(filter, PathFilter::Extensions(_)));
    assert!(filter.ignore("test.rs"));
    assert!(filter.ignore("src/lib.rs"));
    assert!(filter.ignore("src/main.rs"));
    assert!(filter.ignore("src/main.txt"));
    assert!(!filter.ignore("src/main.png"));
}

#[test]
fn regex_extension_combined_filter() {
    let filters = vec![
        PathFilter::new_regex(Regex::new("^src/lib.rs$").unwrap()),
        PathFilter::new_extension(".cs"),
    ];
    assert!(filters.ignore("src/lib.rs"));
    assert!(!filters.ignore("src/main.cpp"));
    assert!(filters.ignore("test.cs"));
    assert!(filters.ignore("src/lib.rs"));
    assert!(!filters.ignore("src/main.rs"));
    assert!(filters.ignore("src/Program.cs"));
}

#[test]
fn sequence_scenario_pattern_or_extension() {
    let filters = vec![
        PathFilter::from(RegexFilter::new_str("^src/lib\\.rs$").unwrap()),
        PathFilter::from(ExtensionFilter::new("cs")),
    ];
    assert!(filters.ignore("src/Program.cs"));
    assert!(!filters.ignore("src/main.cpp"));
}

#[test]
fn sequence_order_does_not_matter() {
    let forward = vec![
        PathFilter::new_regex(Regex::new("^src/lib\\.rs$").unwrap()),
        PathFilter::new_extension("cs"),
        PathFilter::new_extensions(&["md", "txt"]),
    ];
    let backward = vec![
        PathFilter::new_extensions(&["md", "txt"]),
        PathFilter::new_extension("cs"),
        PathFilter::new_regex(Regex::new("^src/lib\\.rs$").unwrap()),
    ];
    for path in ["src/lib.rs", "src/main.rs", "a.cs", "README.md", "b.txt", "c.png", "Makefile"] {
        assert_eq!(forward.ignore(path), backward.ignore(path), "{}", path);
    }
    assert!(forward.ignore("README.md"));
    assert!(!backward.ignore("c.png"));
}

#[test]
fn empty_sequence_ignores_nothing() {
    let filters: Vec<PathFilter> = Vec::new();
    for path in ["src/lib.rs", "", "Makefile", ".hidden", "a.b.c"] {
        assert!(!filters.ignore(path));
        assert!(!ignore_any(&filters, path));
    }
}

#[test]
fn sequence_through_slices() {
    let filters = [
        PathFilter::new_extension("rs"),
        PathFilter::from(ExtensionsFilter::new(&["toml"])),
    ];
    assert!(ignore_any(&filters, "Cargo.toml"));
    assert!(filters.ignore("Cargo.toml"));
    assert!(!filters.ignore("README.md"));
    assert!(filters[..].ignore("src/lib.rs"));
    assert!(!filters[..].ignore("README.md"));
    assert!(!filters[..1].ignore("Cargo.toml"));
}

#[test]
fn union_built_from_each_kind() {
    assert!(matches!(PathFilter::from(ExtensionFilter::new("rs")), PathFilter::Extension(_)));
    assert!(matches!(
        PathFilter::from(ExtensionsFilter::new(&["rs"])),
        PathFilter::Extensions(_)
    ));
    assert!(matches!(
        PathFilter::from(RegexFilter::new_str("x").unwrap()),
        PathFilter::Regex(_)
    ));
}

#[test]
fn union_decides_from_parts() {
    let by_ext = PathFilter::new_extension("rs");
    assert!(by_ext.ignore_parts(None, Some("rs")));
    assert!(!by_ext.ignore_parts(Some("a.rs"), None));
    let by_set = PathFilter::new_extensions(&["rs", "md"]);
    assert!(by_set.ignore_parts(None, Some("md")));
    assert!(!by_set.ignore_parts(Some("a.md"), Some("txt")));
    let by_regex = PathFilter::new_regex(Regex::new("lib").unwrap());
    assert!(by_regex.ignore_parts(Some("src/lib.rs"), None));
    assert!(!by_regex.ignore_parts(None, Some("rs")));
}

#[test]
fn cloned_filters_behave_the_same() {
    let filters = vec![
        PathFilter::new_extension("rs"),
        PathFilter::new_extensions(&["md", "txt"]),
        PathFilter::new_regex(Regex::new("^docs/").unwrap()),
    ];
    let copies = filters.clone();
    for path in ["src/lib.rs", "README.md", "docs/index.html", "a.png"] {
        assert_eq!(filters.ignore(path), copies.ignore(path), "{}", path);
    }
    assert!(copies.ignore("docs/index.html"));
    assert!(!copies.ignore("a.png"));
}

#[test]
fn sequence_decides_from_parts() {
    let filters = vec![
        PathFilter::new_regex(Regex::new("^build/").unwrap()),
        PathFilter::new_extension("o"),
    ];
    assert!(pathfilter::ignore_any_parts(&filters, None, Some("o")));
    assert!(!pathfilter::ignore_any_parts(&filters, None, Some("c")));
    assert!(pathfilter::ignore_any_parts(&filters, Some("build/x.c"), Some("c")));
    assert!(!pathfilter::ignore_any_parts(&filters, None, None));
    assert!(!pathfilter::ignore_any_parts(&[], Some("build/x.o"), Some("o")));
}
