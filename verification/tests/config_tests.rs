use minigrep::{Config, ConfigError};

#[test]
fn missing_query_is_reported() {
    let args = vec![String::from("minigrep")];
    let result = Config::build(&args, None);
    assert!(matches!(result, Err(ConfigError::MissingQuery)));
}

#[test]
fn no_arguments_at_all_reports_missing_query() {
    let args: Vec<String> = Vec::new();
    let result = Config::build(&args, None);
    assert!(matches!(result, Err(ConfigError::MissingQuery)));
}

#[test]
fn missing_file_path_is_reported() {
    let args = vec![String::from("minigrep"), String::from("needle")];
    let result = Config::build(&args, None);
    assert!(matches!(result, Err(ConfigError::MissingFilePath)));
}

#[test]
fn absent_variable_defaults_to_case_sensitive() {
    let args = vec![
        String::from("minigrep"),
        String::from("needle"),
        String::from("poem.txt"),
    ];
    let config = Config::build(&args, None).unwrap();
    assert_eq!(config.query, "needle");
    assert_eq!(config.file_path, "poem.txt");
    assert!(!config.ignore_case);
}

#[test]
fn variable_presence_enables_case_folding() {
    let args = vec![
        String::from("minigrep"),
        String::from("needle"),
        String::from("poem.txt"),
    ];
    let config = Config::build(&args, Some(String::from("1"))).unwrap();
    assert!(config.ignore_case);
}

#[test]
fn variable_presence_counts_even_with_an_empty_value() {
    let args = vec![
        String::from("minigrep"),
        String::from("needle"),
        String::from("poem.txt"),
    ];
    let config = Config::build(&args, Some(String::new())).unwrap();
    assert!(config.ignore_case);
}

#[test]
fn extra_arguments_are_ignored() {
    let args = vec![
        String::from("minigrep"),
        String::from("needle"),
        String::from("poem.txt"),
        String::from("extra"),
    ];
    let config = Config::build(&args, None).unwrap();
    assert_eq!(config.query, "needle");
    assert_eq!(config.file_path, "poem.txt");
}
