use bundle_repo::repo::{
    address_for, clone_error_message, contains_text, is_valid_shorthand, is_valid_url, resolve_repo_url,
    CloneFailure,
};

#[test]
fn urls_and_shorthands_resolve() {
    assert!(is_valid_url("https://github.com/user/repo"));
    assert!(!is_valid_url("user/repo"));
    assert!(is_valid_shorthand("user/repo"));
    assert!(!is_valid_shorthand("invalid_repo"));
    assert_eq!(
        resolve_repo_url("user/repo").unwrap(),
        "https://github.com/user/repo.git"
    );
    assert_eq!(
        resolve_repo_url("https://example.com/x.git").unwrap(),
        "https://example.com/x.git"
    );
    assert_eq!(
        resolve_repo_url("invalid_repo").unwrap_err(),
        "Invalid repository shorthand"
    );
}

#[test]
fn clone_failures_explain_themselves() {
    assert_eq!(
        clone_error_message(CloneFailure::ReferenceNotFound, "x", Some("dev"), "u/r"),
        "The specified branch 'dev' does not exist in the repository."
    );
    assert_eq!(
        clone_error_message(CloneFailure::ReferenceNotFound, "x", None, "u/r"),
        "Failed to clone: x"
    );
    assert!(clone_error_message(CloneFailure::Network, "x", None, "u/r")
        .starts_with("Network error: The repository 'u/r'"));
    assert!(clone_error_message(
        CloneFailure::Http,
        "too many redirects or authentication replays",
        None,
        "u/r"
    )
    .contains("--token"));
    assert_eq!(
        clone_error_message(CloneFailure::Http, "status 500", None, "u/r"),
        "Failed to clone: status 500"
    );
}

#[test]
fn substring_search() {
    assert!(contains_text("abcdef", "cde"));
    assert!(contains_text("abc", ""));
    assert!(!contains_text("abc", "abcd"));
    assert!(!contains_text("abc", "x"));
}

#[test]
fn addresses_follow_the_checks() {
    assert_eq!(address_for("u/r", false, true).unwrap(), "https://github.com/u/r.git");
    assert_eq!(address_for("ssh://h/r", true, false).unwrap(), "ssh://h/r");
    assert_eq!(address_for("??", false, false).unwrap_err(), "Invalid repository shorthand");
}
