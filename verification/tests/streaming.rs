use prime::streaming::{StreamHandler, StreamToken};

#[test]
fn test_primeactions_buffering() {
    let mut handler = StreamHandler::new();

    handler.process_token("```primeactions\n");
    handler.process_token("shell: ls\n");
    let tokens = handler.process_token("```");

    assert!(!tokens.is_empty());
    let has_tool_call = tokens.iter().any(|t| matches!(t, StreamToken::ToolCall(_)));
    assert!(has_tool_call);
}

#[test]
fn test_regular_code_block() {
    let mut handler = StreamHandler::new();

    let tokens = handler.process_token("```python\nprint('hello')\n```");

    assert!(tokens.iter().any(|t| matches!(t, StreamToken::Text(_))));
}

#[test]
fn test_text_before_code_block() {
    let mut handler = StreamHandler::new();

    let tokens = handler.process_token("Here is some code:\n```python\nprint('hello')\n```");

    let texts: Vec<_> = tokens
        .iter()
        .filter_map(|t| if let StreamToken::Text(s) = t { Some(s.as_str()) } else { None })
        .collect();
    assert!(texts.iter().any(|t| t.contains("Here is some code")));
}

#[test]
fn test_regular_text_streaming() {
    let mut handler = StreamHandler::new();

    let tokens = handler.process_token_with("Hello ", false);
    assert!(tokens.is_empty());

    let tokens = handler.process_token_with("world", true);
    assert!(!tokens.is_empty());

    if let StreamToken::Text(text) = &tokens[0] {
        assert!(text.contains("Hello"));
    }
}

fn texts(tokens: &[StreamToken]) -> Vec<String> {
    tokens
        .iter()
        .map(|t| match t {
            StreamToken::Text(s) => format!("T:{}", s),
            StreamToken::ToolCall(s) => format!("C:{}", s),
            StreamToken::Done => "D".to_string(),
        })
        .collect()
}

#[test]
fn tool_call_body_is_held_back_until_the_closing_fence() {
    let mut handler = StreamHandler::new();
    assert!(handler.process_token_with("Plan:\n```primeactions\nshell: ls\n", true).len() == 1);
    assert!(handler.is_buffering_primeactions());
    let out = handler.process_token_with("```\ndone", false);
    assert_eq!(texts(&out), vec!["C:shell: ls\n".to_string()]);
    assert!(!handler.is_buffering_primeactions());
    match handler.flush() {
        Some(StreamToken::Text(s)) => assert_eq!(s, "\ndone"),
        _ => panic!("expected buffered text"),
    }
    assert!(handler.flush().is_none());
}

#[test]
fn ordinary_code_block_is_passed_through_with_its_fences() {
    let mut handler = StreamHandler::default();
    let out = handler.process_token_with("a\n```rust  \nfn x() {}\n```b", false);
    assert_eq!(
        texts(&out),
        vec![
            "T:a\n".to_string(),
            "T:```rust\n".to_string(),
            "T:fn x() {}\n".to_string(),
            "T:```".to_string(),
        ]
    );
}

#[test]
fn trailing_backquote_is_held_even_when_flush_is_due() {
    let mut handler = StreamHandler::new();
    assert!(handler.process_token_with("text `", true).is_empty());
    let out = handler.process_token_with("x", true);
    assert_eq!(texts(&out), vec!["T:text `x".to_string()]);
}

#[test]
fn fence_inside_a_line_does_not_close_a_block() {
    let mut handler = StreamHandler::new();
    handler.process_token_with("```primeactions\n", false);
    let out = handler.process_token_with("shell: echo ```x\n", true);
    assert!(out.is_empty());
    assert!(handler.is_buffering_primeactions());
}

#[test]
fn whole_action_block_is_one_tool_call() {
    let mut handler = StreamHandler::new();
    let out = handler.process_token_with("```primeactions\nshell: ls\n```", false);
    assert_eq!(texts(&out), vec!["C:shell: ls\n".to_string()]);
    assert!(!handler.is_buffering_primeactions());
    assert!(handler.flush().is_none());
}

#[test]
fn timed_flush_emits_buffered_text() {
    let mut handler = StreamHandler::new();
    let start = std::time::Instant::now();
    let first = handler.process_token("Hello ");
    while start.elapsed() < std::time::Duration::from_millis(60) {}
    let mut out = first;
    out.extend(handler.process_token("world"));
    assert_eq!(texts(&out), vec!["T:Hello world".to_string()]);
}
