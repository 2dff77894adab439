use prime::logging::{rank_of, DebugLogger, LogLevel, Logger};

#[test]
fn test_debug_logger() {
    let logger = DebugLogger::new(true, Some("/tmp/debug.log".to_string()), LogLevel::Debug);
    let step = logger.step_entry("2024-01-01 00:00:00", "Test step", None).unwrap();
    let error = logger.error_entry("2024-01-01 00:00:00", "Test error").unwrap();
    let log_content = format!("{}{}", step, error);
    assert!(log_content.contains("Test step"));
    assert!(log_content.contains("Test error"));
}

#[test]
fn debug_records_exact_text_and_levels() {
    let logger = DebugLogger::new(true, None, LogLevel::Debug);
    assert_eq!(
        logger.command_execution_entry("T", "ls", &(-2, "out".to_string())),
        Some("=== T ===\nCOMMAND: ls\nEXIT CODE: -2\nOUTPUT:\nout\n\n".to_string())
    );
    assert_eq!(
        logger.step_entry("T", "s", Some("{\"a\":1}")),
        Some("=== T === STEP: s\nDATA: {\"a\":1}\n\n".to_string())
    );
    let quiet = DebugLogger::new(true, None, LogLevel::Info);
    assert_eq!(quiet.llm_interaction_entry("T", "p", "r"), None);
    assert!(quiet.step_entry("T", "s", None).is_some());
    let off = DebugLogger::new(false, None, LogLevel::Trace);
    assert_eq!(off.error_entry("T", "e"), None);
    assert!(rank_of(LogLevel::Error) < rank_of(LogLevel::Trace));
}

#[test]
fn command_output_preview_lines() {
    let logger = Logger::new();
    assert!(logger.command_output_lines("   ").is_empty());
    assert_eq!(logger.command_output_lines("a\nb"), vec!["Output preview:".to_string(), "a\nb".to_string()]);
    let long = logger.command_output_lines("1\n2\n3\n4\n5\n6\n7");
    assert_eq!(long[1], "1\n2\n3\n4\n5");
    assert_eq!(long[2], "... (2 more lines, full output saved in conversation)");
}
