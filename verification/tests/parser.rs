use prime::session::tool_call_text;
use prime::parser::{parse_llm_response, ParseError, ToolCall};

#[test]
fn plain_text_without_actions() {
    let r = parse_llm_response("  Hello there.\n\n").unwrap();
    assert_eq!(r.natural_language, "Hello there.");
    assert!(r.tool_calls.is_empty());
}

#[test]
fn block_with_every_kind_of_call() {
    let input = "I will act.\n```primeactions\nshell: ls -la\nlist_dir: src\ncd: ..\nchange_dir: x\nread_file: a.txt lines=2-5\nread_file: b.txt\nwrite_file: out.txt append=true\nline one\nline two\nEOF_PRIME\nwrite_memory: long_term extra\nremember\nEOF_PRIME\nclear_memory: short_term\nmytool: a  b\n\nno colon here\n```\nAfter.";
    let r = parse_llm_response(input).unwrap();
    assert_eq!(r.natural_language, "I will act.\nAfter.");
    assert_eq!(
        r.tool_calls,
        vec![
            ToolCall::Shell { command: "ls -la".into() },
            ToolCall::ListDir { path: "src".into() },
            ToolCall::ChangeDir { path: "..".into() },
            ToolCall::ChangeDir { path: "x".into() },
            ToolCall::ReadFile { path: "a.txt".into(), lines: Some((2, 5)) },
            ToolCall::ReadFile { path: "b.txt".into(), lines: None },
            ToolCall::WriteFile { path: "out.txt".into(), content: "line one\nline two".into(), append: true },
            ToolCall::WriteMemory { memory_type: "long_term".into(), content: "remember".into() },
            ToolCall::ClearMemory { memory_type: "short_term".into() },
            ToolCall::ScriptTool { name: "mytool".into(), args: vec!["a".into(), "b".into()] },
        ]
    );
}

#[test]
fn create_tool_reads_header_and_content() {
    let input = "```primeactions\ncreate_tool: name=\"grep_files\" desc=\"Search files\" args=\"pattern path\"\n#!/bin/bash\ngrep -r \"$1\" \"$2\"\nEOF_PRIME\n```";
    let r = parse_llm_response(input).unwrap();
    assert_eq!(
        r.tool_calls,
        vec![ToolCall::CreateTool {
            name: "grep_files".into(),
            desc: "Search files".into(),
            args: "pattern path".into(),
            script_content: "#!/bin/bash\ngrep -r \"$1\" \"$2\"".into(),
        }]
    );
}

#[test]
fn create_tool_with_unquoted_name_is_read() {
    let input = "```primeactions\ncreate_tool: name=pdf_analyze desc=\"Extract metadata from PDF files\" args=\"file_path\"\necho\nEOF_PRIME\n```";
    let r = parse_llm_response(input).unwrap();
    assert_eq!(
        r.tool_calls,
        vec![ToolCall::CreateTool {
            name: "pdf_analyze".into(),
            desc: "Extract metadata from PDF files".into(),
            args: "file_path".into(),
            script_content: "echo".into(),
        }]
    );
}

#[test]
fn create_tool_without_description_is_an_error() {
    let input = "```primeactions\ncreate_tool: name=x args=\"a\"\nEOF_PRIME\n```";
    let e = parse_llm_response(input).unwrap_err();
    assert_eq!(e, ParseError::InvalidCreateToolArgs);
    assert_eq!(e.message(), "Invalid create_tool args: missing name, desc, or args");
}

#[test]
fn bad_line_ranges_are_errors() {
    let e = parse_llm_response("```primeactions\nread_file: a lines=x-3\n```").unwrap_err();
    assert_eq!(e, ParseError::InvalidStartLine("x".into()));
    assert_eq!(e.message(), "Invalid start line number: x");
    let e = parse_llm_response("```primeactions\nread_file: a lines=1-\n```").unwrap_err();
    assert_eq!(e, ParseError::InvalidEndLine("".into()));
    let e = parse_llm_response("```primeactions\nread_file: a lines=1-2-3\n```").unwrap_err();
    assert_eq!(e, ParseError::InvalidLinesFormat);
    assert_eq!(e.message(), "Invalid lines format. Expected start-end");
}

#[test]
fn write_file_content_runs_to_the_end_without_marker() {
    let r = parse_llm_response("```primeactions\nwrite_file: f\r\nabc\r\ndef").unwrap();
    assert_eq!(
        r.tool_calls,
        vec![ToolCall::WriteFile { path: "f".into(), content: "abc\ndef".into(), append: false }]
    );
}

#[test]
fn plus_sign_and_large_numbers_in_ranges() {
    let r = parse_llm_response("```primeactions\nread_file: a lines=+1-10\n```").unwrap();
    assert_eq!(r.tool_calls, vec![ToolCall::ReadFile { path: "a".into(), lines: Some((1, 10)) }]);
    let e = parse_llm_response("```primeactions\nread_file: a lines=1-99999999999999999999999\n```")
        .unwrap_err();
    assert_eq!(e, ParseError::InvalidEndLine("99999999999999999999999".into()));
}

#[test]
fn tool_call_text_parses_back() {
    let calls = vec![
        ToolCall::Shell { command: "ls -la".into() },
        ToolCall::ListDir { path: "src/bin".into() },
        ToolCall::ChangeDir { path: "..".into() },
        ToolCall::ClearMemory { memory_type: "long_term".into() },
        ToolCall::ReadFile { path: "notes.txt".into(), lines: Some((3, 40)) },
        ToolCall::ReadFile { path: "notes.txt".into(), lines: None },
    ];
    for call in calls {
        let response = format!("```primeactions\n{}\n```", tool_call_text(&call));
        assert_eq!(parse_llm_response(&response).unwrap().tool_calls, vec![call]);
    }
}
