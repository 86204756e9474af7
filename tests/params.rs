use bundle_repo::cli::Flags;
use bundle_repo::params::Params;

fn config_with(exclude: Option<Vec<&str>>, extend_exclude: Option<Vec<&str>>) -> Params {
    let mut config = Params::default();
    config.exclude = exclude.map(|v| v.into_iter().map(String::from).collect());
    config.extend_exclude = extend_exclude.map(|v| v.into_iter().map(String::from).collect());
    config
}

#[test]
fn test_params_default() {
    let params = Params::default();
    assert_eq!(params.output_file, Some("packed-repo.xml".to_string()));
    assert_eq!(params.stdout, false);
    assert_eq!(params.model, Some("gpt4o".to_string()));
    assert_eq!(params.clipboard, false);
    assert_eq!(params.line_numbers, false);
    assert_eq!(params.token, None);
    assert_eq!(params.branch, None);
    assert_eq!(params.extend_exclude, None);
    assert_eq!(params.exclude, None);
}

#[test]
fn test_exclude_takes_precedence_over_extend_exclude() {
    let args = Flags::parse_from(&["program", "--exclude", "*.txt", "--extend-exclude", "*.md"]);
    let config = config_with(Some(vec!["*.toml"]), Some(vec!["*.rs"]));

    let params = Params::from_args_and_config(&args, config);

    assert!(params.extend_exclude.is_none());
    assert_eq!(params.exclude, Some(vec!["*.txt".to_string()]));
}

#[test]
fn test_cli_exclude_overrides_config_exclude() {
    let args = Flags::parse_from(&["program", "--exclude", "*.txt", "--exclude", "*.md"]);
    let config = config_with(Some(vec!["*.toml", "*.rs"]), None);

    let params = Params::from_args_and_config(&args, config);

    assert_eq!(params.exclude, Some(vec!["*.txt".to_string(), "*.md".to_string()]));
}

#[test]
fn test_extend_exclude_combines_cli_and_config() {
    let args = Flags::parse_from(&["program", "--extend-exclude", "*.txt", "--extend-exclude", "*.md"]);
    let config = config_with(None, Some(vec!["*.toml", "*.rs"]));

    let params = Params::from_args_and_config(&args, config);

    assert_eq!(
        params.extend_exclude,
        Some(vec![
            "*.txt".to_string(),
            "*.md".to_string(),
            "*.toml".to_string(),
            "*.rs".to_string()
        ])
    );
}

#[test]
fn test_config_exclude_disables_extend_exclude() {
    let args = Flags::parse_from(&["program", "--extend-exclude", "*.txt"]);
    let config = config_with(Some(vec!["*.toml"]), Some(vec!["*.rs"]));

    let params = Params::from_args_and_config(&args, config);

    assert!(params.extend_exclude.is_none());
    assert_eq!(params.exclude, Some(vec!["*.toml".to_string()]));
}

#[test]
fn test_no_exclude_patterns() {
    let args = Flags::parse_from(&["program"]);
    let config = config_with(None, None);

    let params = Params::from_args_and_config(&args, config);

    assert!(params.exclude.is_none());
    assert!(params.extend_exclude.is_none());
}

#[test]
fn command_line_values_win_then_config_then_defaults() {
    let args = Flags::parse_from(&["program", "--file", "cli.xml", "--lnumbers", "--no-utf8"]);
    let mut config = Params::default();
    config.output_file = Some("config.xml".to_string());
    config.model = None;
    config.token = Some("secret-token".to_string());
    config.stdout = true;
    config.utf8 = true;

    let params = Params::from_args_and_config(&args, config);

    assert_eq!(params.output_file, Some("cli.xml".to_string()));
    assert_eq!(params.model, Some("gpt4o".to_string()));
    assert_eq!(params.token, Some("secret-token".to_string()));
    assert!(params.stdout);
    assert!(params.line_numbers);
    assert!(!params.utf8);
}
