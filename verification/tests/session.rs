use prime::parser::ToolCall;
use prime::session::{
    action_line, answer_lines, confirms, format_tool_failure_for_llm, format_tool_results_for_llm,
    history_messages, is_tool_destructive, list_tools, log_entry, name_stem_of, output_lines,
    parse_tool_header, script_command_for, script_file_name, tool_call_text, tool_from_script,
    tool_header_of, tool_outcome, tool_result, tool_script_text, DiscoveredTool, RequestState,
    Role, SessionError, ToolEffect, ToolExecutionResult, TurnStep,
};
use prime::parser::ParsedResponse;

fn s(x: &str) -> String {
    x.to_string()
}

#[test]
fn tool_call_texts() {
    assert_eq!(tool_call_text(&ToolCall::Shell { command: s("ls -la") }), "shell: ls -la");
    assert_eq!(
        tool_call_text(&ToolCall::ReadFile { path: s("a.rs"), lines: Some((3, 12)) }),
        "read_file: a.rs lines=3-12"
    );
    assert_eq!(tool_call_text(&ToolCall::ReadFile { path: s("a.rs"), lines: None }), "read_file: a.rs");
    assert_eq!(
        tool_call_text(&ToolCall::WriteFile { path: s("o.txt"), content: s("line1\nline2"), append: true }),
        "write_file: o.txt append=true (content: \"line1 line2\")"
    );
    assert_eq!(
        tool_call_text(&ToolCall::WriteMemory {
            memory_type: s("long_term"),
            content: s("0123456789012345678901234567890123456789"),
        }),
        "write_memory: long_term (content: \"012345678901234567890123456789...\")"
    );
    assert_eq!(tool_call_text(&ToolCall::ListDir { path: s(".") }), "list_dir: .");
    assert_eq!(tool_call_text(&ToolCall::ChangeDir { path: s("src") }), "cd: src");
    assert_eq!(tool_call_text(&ToolCall::ClearMemory { memory_type: s("short_term") }), "clear_memory: short_term");
    assert_eq!(
        tool_call_text(&ToolCall::ScriptTool { name: s("grep"), args: vec![s("a"), s("b")] }),
        "grep: a b"
    );
    assert_eq!(
        tool_call_text(&ToolCall::CreateTool { name: s("t"), desc: s("d"), args: s("x y"), script_content: s("echo\nhi") }),
        "create_tool: name=t desc=\"d\" args=\"x y\" (content: \"echo hi\")"
    );
}

#[test]
fn tool_header_parsing() {
    assert_eq!(
        parse_tool_header("name=\"grep\" desc=\"Search files\" args=\"pattern path\""),
        Ok((s("grep"), s("Search files"), s("pattern path")))
    );
    assert_eq!(parse_tool_header("name=grep desc=\"x\" args=\"y\""), Ok((s("grep"), s("x"), s("y"))));
    assert_eq!(parse_tool_header("name= desc=\"x\" args=\"y\""), Err(SessionError::InvalidToolHeader));
    assert_eq!(SessionError::InvalidToolHeader.message(), "Invalid tool header: missing name, desc, or args");
}

#[test]
fn discovered_tool_from_script() {
    let script = "#!/bin/bash\n## TOOL: name=\"grep\" desc=\"Search\" args=\"p\"\necho hi\n";
    assert_eq!(tool_header_of(script), Some(s("name=\"grep\" desc=\"Search\" args=\"p\"")));
    let t = tool_from_script("tool_grep.sh", "./prime/tool_grep.sh", script).unwrap().unwrap();
    assert_eq!((t.name.as_str(), t.desc.as_str(), t.args.as_str(), t.path.as_str()), ("grep", "Search", "p", "./prime/tool_grep.sh"));
    assert!(tool_from_script("tool_other.sh", "p", script).unwrap().is_none());
    assert!(tool_from_script("tool_x.sh", "p", "echo no header").unwrap().is_none());
    assert_eq!(
        tool_from_script("tool_x.sh", "p", "## TOOL: name=\"x\"").unwrap_err(),
        SessionError::InvalidToolHeader
    );
    assert_eq!(name_stem_of("tool_abc.sh"), "abc");
    assert_eq!(name_stem_of("abc.sh"), "abc.sh");
    assert_eq!(name_stem_of("tool_abc.ps1"), "tool_abc.ps1");
}

#[test]
fn created_tool_is_discovered_again() {
    let text = tool_script_text("grep_files", "Search", "pattern path", "echo hi\n");
    assert_eq!(text, "#!/bin/bash\n## TOOL: name=grep_files desc=\"Search\" args=\"pattern path\"\necho hi\n");
    let t = tool_from_script(&script_file_name("grep_files"), "p", &text).unwrap().unwrap();
    assert_eq!((t.name.as_str(), t.desc.as_str(), t.args.as_str()), ("grep_files", "Search", "pattern path"));
}

#[test]
fn destructive_calls() {
    let patterns = vec![s("rm -rf"), s("DD IF=")];
    assert!(is_tool_destructive(&ToolCall::Shell { command: s("  RM -RF /tmp/x") }, &patterns));
    assert!(is_tool_destructive(&ToolCall::Shell { command: s("dd if=/dev/zero") }, &patterns));
    assert!(!is_tool_destructive(&ToolCall::Shell { command: s("ls") }, &patterns));
    assert!(is_tool_destructive(
        &ToolCall::ScriptTool { name: s("clean"), args: vec![s("rm"), s("-rf")] },
        &vec![s("tool_clean.sh rm -rf")]
    ));
    assert!(!is_tool_destructive(&ToolCall::ListDir { path: s("rm -rf") }, &patterns));
    assert_eq!(script_command_for("./prime/tool_a.sh", &vec![]), "./prime/tool_a.sh");
    assert_eq!(script_command_for("./prime/tool_a.sh", &vec![s("x"), s("y")]), "./prime/tool_a.sh x y");
}

#[test]
fn tool_outcomes() {
    let shell = ToolCall::Shell { command: s("false") };
    assert_eq!(tool_outcome(&shell, &ToolEffect::Ran(0, s("ok"))), (true, s("ok")));
    assert_eq!(tool_outcome(&shell, &ToolEffect::Ran(-1, s("Command cancelled by user."))), (false, s("Command cancelled by user.")));
    assert_eq!(tool_outcome(&shell, &ToolEffect::Ran(2, s("oops"))), (false, s("Command failed with exit code 2\nOutput:\noops")));
    assert_eq!(tool_outcome(&shell, &ToolEffect::NotRun(s("no sh"))), (false, s("Failed to execute command: no sh")));
    let script = ToolCall::ScriptTool { name: s("t"), args: vec![] };
    assert_eq!(tool_outcome(&script, &ToolEffect::Ran(-1, s("x"))), (false, s("Script failed with exit code -1\nOutput:\nx")));
    assert_eq!(tool_outcome(&script, &ToolEffect::ScriptMissing(s("/p/t.sh"))), (false, s("Script not found: /p/t.sh")));
    let read = ToolCall::ReadFile { path: s("a"), lines: None };
    assert_eq!(tool_outcome(&read, &ToolEffect::FileRead(s("abc"), true)), (true, s("abc\nNote: File content was truncated")));
    assert_eq!(tool_outcome(&read, &ToolEffect::ReadFailed(s("/w/a"), s("gone"))), (false, s("Failed to read file '/w/a': gone")));
    let list = ToolCall::ListDir { path: s(".") };
    assert_eq!(tool_outcome(&list, &ToolEffect::Listed(vec![])), (true, s("Directory is empty")));
    assert_eq!(tool_outcome(&list, &ToolEffect::Listed(vec![s("a/"), s("b")])), (true, s("a/\nb")));
    let wm = ToolCall::WriteMemory { memory_type: s("long_term"), content: s("x") };
    assert_eq!(tool_outcome(&wm, &ToolEffect::MemoryDone), (true, s("Successfully wrote to long_term memory")));
    let cm = ToolCall::ClearMemory { memory_type: s("short_term") };
    assert_eq!(tool_outcome(&cm, &ToolEffect::MemoryFailed(s("bad"))), (false, s("Failed to clear short_term memory: bad")));
    let cd = ToolCall::ChangeDir { path: s("x") };
    assert_eq!(tool_outcome(&cd, &ToolEffect::NotADirectory(s("/w/x"))), (false, s("Directory not found: /w/x")));
    assert_eq!(tool_outcome(&cd, &ToolEffect::DirChanged(s("/w/x"))), (true, s("Changed working directory to /w/x")));
    let ct = ToolCall::CreateTool { name: s("n"), desc: s("d"), args: s("a"), script_content: s("c") };
    assert_eq!(tool_outcome(&ct, &ToolEffect::ToolCreated(s("/p/tool_n.sh"))), (true, s("Created and loaded new tool: n at /p/tool_n.sh")));
    let r = tool_result(&shell, &ToolEffect::Ran(0, s("out")));
    assert_eq!((r.tool_call_str.as_str(), r.success, r.output.as_str()), ("shell: false", true, "out"));
}

#[test]
fn reports_for_the_model() {
    let results = vec![
        ToolExecutionResult { tool_call_str: s("shell: ls"), success: true, output: s("  a\nb \n") },
        ToolExecutionResult { tool_call_str: s("cd: x"), success: false, output: s("no") },
    ];
    assert_eq!(
        format_tool_results_for_llm(&results),
        "<tool_output id=\"0\" for=\"shell: ls\" status=\"SUCCESS\">\na\nb\n</tool_output>\n<tool_output id=\"1\" for=\"cd: x\" status=\"FAILURE\">\nno\n</tool_output>"
    );
    assert_eq!(format_tool_results_for_llm(&vec![]), "");
    assert_eq!(
        format_tool_failure_for_llm(&results[1]),
        "<tool_output for=\"cd: x\" status=\"FAILURE\">\nno\n</tool_output>"
    );
}

#[test]
fn log_and_history() {
    let mut log = String::new();
    log.push_str(&log_entry("User Input", "2024-01-01 10:00:00", "  hello  "));
    log.push_str(&log_entry("Prime Response", "t2", "answer"));
    log.push_str(&log_entry("Other", "t3", "ignored"));
    log.push_str(&log_entry("Tool Results", "t4", "res"));
    assert!(log.starts_with("\n## User Input (2024-01-01 10:00:00)\n```\nhello\n```\n"));
    let all = history_messages(&log, None);
    assert_eq!(
        all,
        vec![
            (Role::User, s("hello\n```")),
            (Role::Assistant, s("answer\n```")),
            (Role::User, s("res\n```")),
        ]
    );
    let last = history_messages(&log, Some(2));
    assert_eq!(last, vec![(Role::Assistant, s("answer\n```")), (Role::User, s("res\n```"))]);
    assert!(history_messages("", Some(10)).is_empty());
}

#[test]
fn tools_listing() {
    let none = list_tools(&vec![]);
    assert!(none.starts_with("Built-in Tools:\n- shell: Execute any shell command\n"));
    assert!(none.ends_with("\nDiscovered Custom Tools (./prime/):\nNone found. Use create_tool to build your own!\n"));
    let one = list_tools(&vec![DiscoveredTool { name: s("g"), desc: s("grep"), args: s("p"), path: s("./prime/tool_g.sh") }]);
    assert!(one.ends_with("- g: grep (args: p, path: ./prime/tool_g.sh)\n"));
}

#[test]
fn request_turns() {
    let mut st = RequestState::new();
    let acting = ParsedResponse { natural_language: s("x"), tool_calls: vec![ToolCall::Shell { command: s("ls") }] };
    let answering = ParsedResponse { natural_language: s("done"), tool_calls: vec![] };
    let patterns = vec![s("rm -rf")];
    assert_eq!(st.on_response(&answering, &patterns), TurnStep::Answer { boxed: false });
    for _ in 0..9 {
        assert!(st.may_continue());
        assert_eq!(st.on_response(&acting, &patterns), TurnStep::Act { confirm: false });
        st.on_confirmed();
    }
    assert_eq!(st.on_response(&answering, &patterns), TurnStep::Answer { boxed: true });
    let risky = ParsedResponse {
        natural_language: s(""),
        tool_calls: vec![ToolCall::ListDir { path: s(".") }, ToolCall::Shell { command: s("RM -RF build") }],
    };
    assert!(st.may_continue());
    assert_eq!(st.on_response(&risky, &patterns), TurnStep::Act { confirm: true });
    assert!(!st.may_continue());
    assert_eq!(st.tool_turns, 10);
    assert!(st.shown_actions);
    assert!(confirms("  Y \n"));
    assert!(confirms("y"));
    assert!(!confirms("yes"));
    assert!(!confirms(""));
}

#[test]
fn plan_and_answer_lines() {
    assert_eq!(action_line(&ToolCall::WriteFile { path: s("f"), content: s("c"), append: false }), "┃ write_file: f");
    assert_eq!(action_line(&ToolCall::Shell { command: s("ls") }), "┃ ls");
    assert_eq!(action_line(&ToolCall::ReadFile { path: s("a"), lines: Some((1, 2)) }), "┃ read_file: a lines=1-2");
    assert_eq!(answer_lines("short answer", false), vec![s("short answer")]);
    assert_eq!(answer_lines("short answer", true), vec![s("┃short answer")]);
    let long = "word ".repeat(30);
    let lines = answer_lines(&long, false);
    assert!(lines.len() > 1);
    assert!(lines.iter().all(|l| l.chars().count() <= 70));
    assert_eq!(output_lines("  a\nb  \n"), vec![s("│ a"), s("│ b")]);
    assert!(output_lines("   ").is_empty());
}
