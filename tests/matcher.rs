use bundle_repo::matcher::{keep_unexcluded, ExcludeRules, PatternMatcher};

fn strings(v: &[&str]) -> Vec<String> {
    v.iter().map(|s| s.to_string()).collect()
}

fn kept(extend: Option<&[&str]>, exclude: Option<&[&str]>, candidates: &[&str]) -> Vec<String> {
    let rules = ExcludeRules::from_options(extend.map(strings), exclude.map(strings));
    let matcher = PatternMatcher::new(&rules);
    keep_unexcluded(&matcher, strings(candidates))
}

#[test]
fn default_rules_keep_only_ordinary_files() {
    let files = kept(None, None, &[".git/config", ".gitignore", "LICENSE", "notes.txt"]);
    assert_eq!(files, vec!["notes.txt"]);
}

#[test]
fn default_rules_cover_metadata_locks_and_requirements() {
    let files = kept(
        None,
        None,
        &[
            "file1.txt",
            ".git/config",
            ".gitignore",
            "renovate.json",
            "requirements.txt",
            "Cargo.lock",
            "LICENSE",
            ".github/workflows/test.yml",
            ".vscode/settings.json",
        ],
    );
    assert_eq!(files, vec!["file1.txt"]);
}

#[test]
fn replacing_list_disables_extending_list() {
    let files = kept(
        Some(&["*.md"]),
        Some(&["secret"]),
        &["README.md", "my-secret.txt", ".gitignore", "src/main.rs"],
    );
    assert_eq!(files, vec!["README.md", ".gitignore", "src/main.rs"]);
}

#[test]
fn extending_list_adds_to_defaults() {
    let files = kept(
        Some(&["custom_exclude.txt"]),
        None,
        &["file1.txt", "src/file2.rs", "custom_exclude.txt", ".gitignore"],
    );
    assert_eq!(files, vec!["file1.txt", "src/file2.rs"]);
}

#[test]
fn patterns_are_literal_and_case_insensitive() {
    let files = kept(None, Some(&["*.log", "SECRET"]), &["a.log", "b*.log", "x/secret/y", "c.txt"]);
    assert_eq!(files, vec!["a.log", "c.txt"]);
}

#[test]
fn matcher_sources_escape_patterns() {
    let matcher = PatternMatcher::new(&ExcludeRules::Replace(strings(&["a.b"])));
    assert_eq!(matcher.sources, vec!["(?i)a\\.b"]);
    assert!(matcher.matches("A.B"));
    assert!(!matcher.matches("axb"));
}

#[test]
fn patterns_that_do_not_compile_match_nothing_and_are_reported() {
    let matcher = PatternMatcher {
        sources: vec!["(".to_string(), "(?i)ok".to_string()],
    };
    assert_eq!(matcher.invalid_patterns(), vec!["("]);
    assert!(!matcher.matches("a(b"));
    assert!(matcher.matches("OK.txt"));
    let defaults = PatternMatcher::new(&ExcludeRules::DefaultAndExtend(vec![]));
    assert!(defaults.invalid_patterns().is_empty());
}
