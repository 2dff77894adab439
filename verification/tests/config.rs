use prime::config::{default_ask_me_before_patterns, load_ignored_path_patterns, patterns_or_defaults, ConfigError};
use prime::config_utils::load_ask_me_before_patterns;

#[test]
fn test_load_default_ask_me_before_patterns() {
    let patterns = load_ask_me_before_patterns(None);
    assert_eq!(patterns.len(), default_ask_me_before_patterns().len());
}

#[test]
fn test_load_custom_ask_me_before_patterns_from_file() {
    let custom_patterns = ["dangerous-command", "another-risky-operation"];
    let content = custom_patterns.join("\n");
    let patterns = load_ask_me_before_patterns(Some(&content));
    assert_eq!(patterns.len(), custom_patterns.len());
    assert!(patterns.contains(&"dangerous-command".to_string()));
    assert!(!patterns.contains(&"rm -rf".to_string()));
}

#[test]
fn test_ignore_comments_and_empty_lines() {
    let file_content = "\n# This is a comment\ndangerous-command\n\n# Another comment\nrisky-operation\n";
    let patterns = load_ask_me_before_patterns(Some(file_content));
    assert_eq!(patterns.len(), 2);
    assert!(patterns.contains(&"dangerous-command".to_string()));
    assert!(patterns.contains(&"risky-operation".to_string()));
    assert!(!patterns.iter().any(|p| p.starts_with('#')));
}

#[test]
fn comments_only_file_falls_back_to_defaults() {
    let patterns = load_ask_me_before_patterns(Some("# nothing\n\n   \n"));
    assert_eq!(patterns, default_ask_me_before_patterns());
    assert!(patterns.contains(&"rm -rf".to_string()));
}

#[test]
fn ignored_paths_default_and_custom() {
    let defaults = load_ignored_path_patterns(None).unwrap();
    assert!(defaults.contains(&"**/node_modules/**".to_string()));
    let custom = load_ignored_path_patterns(Some("  *.log  \n# c\nbuild/**")).unwrap();
    assert_eq!(custom, vec!["*.log".to_string(), "build/**".to_string()]);
}

#[test]
fn invalid_glob_is_reported() {
    let r = load_ignored_path_patterns(Some("good/*\n***bad"));
    assert_eq!(r, Err(ConfigError::InvalidGlob("***bad".to_string())));
    assert_eq!(
        ConfigError::InvalidGlob("***bad".to_string()).message(),
        "Invalid glob pattern in ignored paths: ***bad"
    );
}

#[test]
fn pattern_file_or_defaults() {
    let defaults = vec!["a".to_string()];
    assert_eq!(patterns_or_defaults(None, defaults.clone()), (defaults.clone(), true));
    assert_eq!(patterns_or_defaults(Some("# only a comment\n\n"), defaults.clone()), (defaults.clone(), true));
    assert_eq!(patterns_or_defaults(Some(" x \n# c\ny"), defaults), (vec!["x".to_string(), "y".to_string()], false));
}
