use copy_glob::{new_glob, CopyGlobOptionsBuilder, ExcludeSet, InvalidPatternError};

fn strings(items: &[&str]) -> Vec<String> {
    items.iter().map(|s| s.to_string()).collect()
}

/// A well-formed pattern that is too large to be compiled.
fn oversized() -> String {
    let mut pattern = String::from("a*");
    for _ in 0..1_000_000 {
        pattern.push('c');
    }
    pattern.push_str("*d");
    pattern
}

#[test]
fn matcher_follows_the_pattern_not_the_path() {
    let matcher = new_glob("*.rs").unwrap();
    assert!(matcher.matches("foo.rs"));
    assert!(!matcher.matches("Cargo.toml"));
    assert!(!matcher.matches("*.rs.bak"));
}

#[test]
fn star_crosses_directories() {
    let matcher = new_glob("*.rs").unwrap();
    assert!(matcher.matches("foo/bar.rs"));
    assert!(matcher.matches("/proj/tests/for_copy/not_empty/rust/ruru.rs"));
}

#[test]
fn question_mark_and_classes() {
    let one = new_glob("a?c").unwrap();
    assert!(one.matches("abc"));
    assert!(!one.matches("ac"));
    let class = new_glob("[ab].txt").unwrap();
    assert!(class.matches("a.txt"));
    assert!(class.matches("b.txt"));
    assert!(!class.matches("c.txt"));
}

#[test]
fn double_star_matches_any_depth() {
    let matcher = new_glob("**/for_copy/*").unwrap();
    assert!(matcher.matches("/proj/tests/for_copy/ok.js"));
    assert!(matcher.matches("for_copy/ok.js"));
    assert!(matcher.matches("/proj/tests/for_copy/not_empty/rust/ruru.rs"));
    assert!(!matcher.matches("/proj/tests/for_copy"));
    assert!(!matcher.matches("/proj/tests/other/ok.js"));
}

#[test]
fn unclosed_class_is_malformed() {
    assert_eq!(
        new_glob("[abc").err(),
        Some(InvalidPatternError::Malformed { pattern: "[abc".to_string() })
    );
}

#[test]
fn unclosed_alternates_are_malformed() {
    assert_eq!(
        new_glob("{a,b").err(),
        Some(InvalidPatternError::Malformed { pattern: "{a,b".to_string() })
    );
}

#[test]
fn inverted_range_is_malformed() {
    assert_eq!(
        new_glob("[z-a]").err(),
        Some(InvalidPatternError::Malformed { pattern: "[z-a]".to_string() })
    );
}

#[test]
fn exclude_set_matches_when_any_pattern_does() {
    let set = ExcludeSet::build(&strings(&["*.tmp", "**/cache/*"])).ok().unwrap();
    assert!(set.is_match("a.tmp"));
    assert!(set.is_match("/x/cache/y"));
    assert!(!set.is_match("/x/src/y.rs"));
}

#[test]
fn exclude_set_does_not_depend_on_order() {
    let a = ExcludeSet::build(&strings(&["*.tmp", "**/cache/*"])).ok().unwrap();
    let b = ExcludeSet::build(&strings(&["**/cache/*", "*.tmp", "*.tmp"])).ok().unwrap();
    for path in ["a.tmp", "/x/cache/y", "/x/src/y.rs", "", "cache", "/cache/"] {
        assert_eq!(a.is_match(path), b.is_match(path));
    }
}

#[test]
fn empty_exclude_set_matches_nothing() {
    let set = ExcludeSet::build(&Vec::new()).ok().unwrap();
    assert!(!set.is_match("anything"));
    assert!(!set.is_match(""));
}

#[test]
fn exclude_set_reports_the_first_malformed_pattern() {
    let result = ExcludeSet::build(&strings(&["*.ok", "[one", "{two"]));
    assert_eq!(
        result.err(),
        Some(InvalidPatternError::Malformed { pattern: "[one".to_string() })
    );
}

#[test]
fn new_builder_excludes_the_target_directory() {
    let options = CopyGlobOptionsBuilder::new("/proj").build().ok().unwrap();
    assert_eq!(options.root(), "/proj");
    assert!(options.exclude().is_match("/proj/target/debug/build.log"));
    assert!(options.exclude().is_match("target/x"));
    assert!(!options.exclude().is_match("/proj/src/lib.rs"));
}

#[test]
fn the_target_directory_itself_is_not_excluded() {
    let options = CopyGlobOptionsBuilder::new("/proj").build().ok().unwrap();
    assert!(!options.exclude().is_match("/proj/target"));
    assert!(!options.exclude().is_match("/proj/targets/x"));
}

#[test]
fn default_exclude_is_the_named_pattern() {
    assert_eq!(copy_glob::DEFAULT_EXCLUDE, "**/target/*");
}

#[test]
fn set_root_path_replaces_the_root_only() {
    let options = CopyGlobOptionsBuilder::new("/proj")
        .set_root_path("/elsewhere")
        .build()
        .ok()
        .unwrap();
    assert_eq!(options.root(), "/elsewhere");
    assert!(options.exclude().is_match("/elsewhere/target/x"));
}

#[test]
fn add_exclude_is_cumulative() {
    let options = CopyGlobOptionsBuilder::new("/proj")
        .add_exclude("**/some_pattern/*")
        .add_exclude("*.bak")
        .build()
        .ok()
        .unwrap();
    assert!(options.exclude().is_match("/proj/target/x"));
    assert!(options.exclude().is_match("/proj/some_pattern/x"));
    assert!(options.exclude().is_match("/proj/a.bak"));
    assert!(!options.exclude().is_match("/proj/a.rs"));
}

#[test]
fn clear_excludes_removes_the_default() {
    let options = CopyGlobOptionsBuilder::new("/proj").clear_excludes().build().ok().unwrap();
    assert_eq!(options.root(), "/proj");
    assert!(!options.exclude().is_match("/proj/target/x"));
}

#[test]
fn build_fails_on_a_malformed_exclude() {
    let result = CopyGlobOptionsBuilder::new("/proj").add_exclude("[oops").build();
    assert_eq!(
        result.err(),
        Some(InvalidPatternError::Malformed { pattern: "[oops".to_string() })
    );
}

#[test]
fn an_oversized_pattern_is_uncompilable() {
    assert_eq!(new_glob(&oversized()).err(), Some(InvalidPatternError::Uncompilable));
}

#[test]
fn an_oversized_exclude_is_uncompilable() {
    let result = CopyGlobOptionsBuilder::new("/proj").add_exclude(&oversized()).build();
    assert_eq!(result.err(), Some(InvalidPatternError::Uncompilable));
}

#[test]
fn a_malformed_pattern_is_reported_before_an_oversized_one() {
    let patterns = vec![oversized(), "[bad".to_string()];
    assert_eq!(
        ExcludeSet::build(&patterns).err(),
        Some(InvalidPatternError::Malformed { pattern: "[bad".to_string() })
    );
}
