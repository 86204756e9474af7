use bundle_repo::cli::{version_info, version_text, Flags, PACKAGE_AUTHORS, PACKAGE_DESCRIPTION, PACKAGE_VERSION};

fn assert_bool<T: Into<bool>>(_: &T) {}

#[test]
fn test_version_info() {
    let version_str = version_info();
    assert!(version_str.contains(PACKAGE_VERSION));
    assert!(version_str.contains(PACKAGE_AUTHORS));
    assert!(version_str.contains(PACKAGE_DESCRIPTION));
}

#[test]
fn version_info_fills_in_missing_metadata() {
    let version_str = version_info();
    assert_eq!(
        version_str,
        "bundle_repo v0.1.0\n\nNo description provided\n\nReleased under the MIT license by Unknown\n"
    );
}

#[test]
fn test_basic_repo_arg() {
    let args = Flags::parse_from(&["program", "user/repo"]);
    assert_eq!(args.repo, Some("user/repo".to_string()));
    assert_eq!(args.branch, None);
    assert_eq!(args.stdout, false);
}

#[test]
fn test_full_github_url() {
    let args = Flags::parse_from(&["program", "https://github.com/user/repo"]);
    assert_eq!(args.repo, Some("https://github.com/user/repo".to_string()));
}

#[test]
fn test_branch_option() {
    let args = Flags::parse_from(&["program", "user/repo", "--branch", "develop"]);
    assert_eq!(args.repo, Some("user/repo".to_string()));
    assert_eq!(args.branch, Some("develop".to_string()));
}

#[test]
fn test_output_file() {
    let args = Flags::parse_from(&["program", "user/repo", "--file", "output.xml"]);
    assert_eq!(args.output_file, Some("output.xml".to_string()));
}

#[test]
fn test_stdout_flag() {
    let args = Flags::parse_from(&["program", "user/repo", "--stdout"]);
    assert!(args.stdout);
}

#[test]
fn test_model_selection() {
    let args = Flags::parse_from(&["program", "user/repo", "--model", "gpt4"]);
    assert_eq!(args.model, Some("gpt4".to_string()));
}

#[test]
fn test_clipboard_flag() {
    let args = Flags::parse_from(&["program", "user/repo", "--clipboard"]);
    assert!(args.clipboard);
}

#[test]
fn test_line_numbers_flag() {
    let args = Flags::parse_from(&["program", "user/repo", "--lnumbers"]);
    assert!(args.lnumbers);
}

#[test]
fn test_token_option() {
    let args = Flags::parse_from(&["program", "user/repo", "--token", "abc123"]);
    assert_eq!(args.token, Some("abc123".to_string()));
}

#[test]
fn cli_test_version_flag() {
    let args = Flags::parse_from(&["program", "--version"]);
    assert!(args.version);
}

#[test]
fn main_test_version_flag() {
    let args = Flags::parse_from(&["bundlerepo", "--version"]);
    assert!(args.version);
}

#[test]
fn test_extend_exclude_patterns() {
    let args = Flags::parse_from(&[
        "program",
        "user/repo",
        "--extend-exclude",
        "*.log",
        "--extend-exclude",
        "target/",
    ]);
    assert_eq!(
        args.extend_exclude,
        Some(vec!["*.log".to_string(), "target/".to_string()])
    );
}

#[test]
fn test_multiple_flags() {
    let args = Flags::parse_from(&[
        "program",
        "user/repo",
        "--branch",
        "main",
        "--stdout",
        "--clipboard",
        "--model",
        "gpt4",
    ]);
    assert_eq!(args.repo, Some("user/repo".to_string()));
    assert_eq!(args.branch, Some("main".to_string()));
    assert!(args.stdout);
    assert!(args.clipboard);
    assert_eq!(args.model, Some("gpt4".to_string()));
}

#[test]
fn test_no_repo_arg() {
    let args = Flags::parse_from(&["program"]);
    assert_eq!(args.repo, None);
}

#[test]
fn test_invalid_model() {
    let result = Flags::try_parse_from(&["program", "user/repo", "--model", "invalid_model"]);

    assert!(result.is_err());
    let err = result.err().unwrap().message();
    assert!(err.contains("invalid value 'invalid_model'"));
    assert!(err.contains("possible values: gpt4o, gpt4, gpt3.5, gpt3, gpt2, deepseek"));
}

#[test]
fn test_short_flags() {
    let args = Flags::parse_from(&["program", "user/repo", "-b", "main", "-s", "-c", "-m", "gpt4"]);
    assert_eq!(args.branch, Some("main".to_string()));
    assert!(args.stdout);
    assert!(args.clipboard);
    assert_eq!(args.model, Some("gpt4".to_string()));
}

#[test]
fn test_utf8_flag_values() {
    let args = Flags::parse_from(&["program", "--utf8"]);
    assert!(args.utf8);
    assert!(!args.no_utf8);
    assert_bool(&args.utf8);

    let args = Flags::parse_from(&["program", "--no-utf8"]);
    assert!(!args.utf8);
    assert!(args.no_utf8);
    assert_bool(&args.utf8);

    let args = Flags::parse_from(&["program", "-U"]);
    assert!(!args.utf8);
    assert!(args.no_utf8);
    assert_bool(&args.utf8);

    let args = Flags::parse_from(&["program"]);
    assert!(!args.utf8);
    assert!(!args.no_utf8);
    assert_bool(&args.utf8);

    let args = Flags::parse_from(&["program", "-u"]);
    assert!(args.utf8);
    assert!(!args.no_utf8);
    assert_bool(&args.utf8);

    let result = Flags::try_parse_from(&["program", "--utf8", "--no-utf8"]);
    assert!(result.is_err());

    let result = Flags::try_parse_from(&["program", "-u", "-U"]);
    assert!(result.is_err());
}

#[test]
fn unknown_option_and_missing_value_are_refused() {
    let unknown = Flags::try_parse_from(&["program", "--bogus"]);
    assert!(unknown.err().unwrap().message().contains("unexpected argument '--bogus'"));
    let missing = Flags::try_parse_from(&["program", "--branch"]);
    assert!(missing.err().unwrap().message().contains("a value is required for '--branch'"));
    let extra = Flags::try_parse_from(&["program", "a/b", "c/d"]);
    assert!(extra.err().unwrap().message().contains("unexpected argument 'c/d'"));
}

#[test]
fn replacing_and_extending_lists_are_both_read() {
    let args = Flags::parse_from(&["program", "-x", "secret", "-e", "*.md"]);
    assert_eq!(args.exclude, Some(vec!["secret".to_string()]));
    assert_eq!(args.extend_exclude, Some(vec!["*.md".to_string()]));
}

#[test]
fn version_text_shows_the_metadata() {
    assert_eq!(
        version_text("1.2.3", "Ann Lee", "Packs repositories"),
        "bundle_repo v1.2.3\n\nPacks repositories\n\nReleased under the MIT license by Ann Lee\n"
    );
}
