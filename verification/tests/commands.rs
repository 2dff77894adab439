use prime::commands::{
    arrange_listing, human_preview, limited_content, looks_binary, matching_patterns, merged_output,
    range_content, DirEntry, ReadError,
};
use prime::processor::{command_output, output_preview, uses_strategies, CommandProcessor, RunStep};

fn s(x: &str) -> String {
    x.to_string()
}

#[test]
fn binary_detection_and_preview() {
    assert!(looks_binary(b"abc\0def"));
    assert!(!looks_binary(b"plain text"));
    let mut late = vec![b'a'; 300];
    late[299] = 0;
    assert!(!looks_binary(&late));
    assert_eq!(human_preview(b"ab\0"), "[binary data omitted]");
    assert_eq!(human_preview(b"hello"), "hello");
    let long = vec![b'x'; 2000];
    let p = human_preview(&long);
    assert_eq!(p, format!("{}\n... (output truncated)", "x".repeat(1024)));
    assert_eq!(human_preview(&[0xff, b'a']), "\u{fffd}a");
}

#[test]
fn merged_command_output() {
    assert_eq!(merged_output(b"out", b""), "out");
    assert_eq!(merged_output(b"out", b"err"), "out\n\nSTDERR:\nerr");
    assert_eq!(command_output(b"", b"err"), "STDERR:\nerr");
    assert_eq!(command_output(b"o", b"e"), "o\n\nSTDERR:\ne");
    assert_eq!(command_output(b"o", b""), "o");
}

#[test]
fn line_ranges() {
    let lines: Vec<String> = (1..=5).map(|i| format!("l{}", i)).collect();
    assert_eq!(range_content(&lines, 2, 3), Ok((s("l2\nl3\n... (file content truncated)"), true)));
    assert_eq!(range_content(&lines, 4, 9), Ok((s("l4\nl5"), false)));
    assert_eq!(range_content(&lines, 7, 9), Ok((s(""), false)));
    assert_eq!(range_content(&lines, 0, 2), Err(ReadError::InvalidRange(0, 2)));
    assert_eq!(range_content(&lines, 3, 2), Err(ReadError::InvalidRange(3, 2)));
    assert_eq!(
        ReadError::InvalidRange(3, 2).message(),
        "Invalid line range: start must be >= 1 and start <= end. Got start=3 end=2"
    );
}

#[test]
fn large_file_content() {
    let (c, t) = limited_content(b"a\nb\n");
    assert_eq!(c, "a\nb\n... (file content truncated)");
    assert!(t);
    let (c, _) = limited_content(b"\0\0");
    assert_eq!(c, "[binary data omitted]\n... (file content truncated)");
    let many: String = (0..1500).map(|i| format!("{}\n", i)).collect();
    let (c, _) = limited_content(many.as_bytes());
    assert!(c.starts_with("0\n1\n"));
    assert!(c.ends_with("999\n... (file content truncated)"));
}

#[test]
fn directory_listing_is_filtered_sorted_and_capped() {
    let e = |n: &str, d: bool| DirEntry { file_name: s(n), path: format!("/w/{}", n), is_dir: d };
    let entries = vec![e("b.txt", false), e("Zeta", true), e("a.txt", false), e("node_modules", true), e("x.pyc", false), e("alpha", true)];
    let patterns = vec![s("**/node_modules"), s("*.pyc")];
    assert_eq!(arrange_listing(&entries, &patterns), vec![s("alpha/"), s("Zeta/"), s("a.txt"), s("b.txt")]);
    let many: Vec<DirEntry> = (0..25).map(|i| e(&format!("f{:02}", i), false)).collect();
    let listed = arrange_listing(&many, &vec![]);
    assert_eq!(listed.len(), 21);
    assert_eq!(listed[0], "f00");
    assert_eq!(listed[20], "... (and 5 more items)");
}

#[test]
fn patterns_that_ask_first() {
    assert_eq!(matching_patterns("rm -rf /", &vec![s("rm -rf"), s("mkfs"), s("rm")]), vec![s("rm -rf"), s("rm")]);
    let p = CommandProcessor::new(vec![s("rm -rf")]);
    assert!(p.is_ask_me_before_command(" SUDO RM -RF x"));
    assert!(!p.is_ask_me_before_command("ls"));
}

#[test]
fn execution_strategies() {
    let p = CommandProcessor::new(vec![]);
    assert_eq!(
        p.get_execution_strategies("pip install requests"),
        vec![s("pip install requests"), s("pip install --user requests"), s("python -m pip install requests"), s("pip3 install requests")]
    );
    assert_eq!(
        p.get_execution_strategies("npm install  left-pad "),
        vec![s("npm install  left-pad "), s("npm install --no-save left-pad"), s("yarn add left-pad")]
    );
    assert_eq!(p.get_execution_strategies("ls"), vec![s("ls")]);
    assert!(uses_strategies(" pip install x "));
    assert!(!uses_strategies("a && b"));
    assert!(!uses_strategies("a | b"));
}

#[test]
fn previews_of_output() {
    assert_eq!(output_preview("1\n2\n3"), (s("1\n2\n3"), false));
    assert_eq!(output_preview("1\n2\n3\n4\n5\n6\n7"), (s("1\n2\n3\n4\n5"), true));
}

#[test]
fn fallbacks_run_until_a_success_and_cache_it() {
    let mut p = CommandProcessor::new(vec![]);
    assert_eq!(p.shell_invocation("ls"), (s("sh"), vec![s("-c"), s("ls")]));
    let mut run = p.begin_fallbacks("pip install foo");
    assert_eq!(p.fallback_step(&run), RunStep::Execute(s("pip install foo")));
    assert!(run.has_more());
    assert_eq!(p.fallback_result(&mut run, (1, s("denied"))), None);
    assert_eq!(run.attempt(), 2);
    assert_eq!(p.fallback_step(&run), RunStep::Execute(s("pip install --user foo")));
    assert_eq!(p.fallback_result(&mut run, (0, s("ok"))), Some((0, s("ok"))));
    assert_eq!(p.cached("pip install --user foo"), Some((0, s("ok"))));
    assert_eq!(p.cached("pip install foo"), None);
    let run = p.begin_fallbacks("pip install foo");
    let mut run2 = run.clone();
    assert_eq!(p.fallback_step(&run), RunStep::Execute(s("pip install foo")));
    assert_eq!(p.fallback_result(&mut run2, (2, s("x"))), None);
    assert_eq!(p.fallback_step(&run2), RunStep::Finished(0, s("ok")));
}

#[test]
fn exhausted_fallbacks_end_with_a_final_run() {
    let mut p = CommandProcessor::new(vec![]);
    let mut run = p.begin_fallbacks("ls");
    assert!(!run.has_more());
    assert_eq!(p.fallback_step(&run), RunStep::Execute(s("ls")));
    assert_eq!(p.fallback_result(&mut run, (3, s("e1"))), None);
    assert_eq!(p.fallback_step(&run), RunStep::Execute(s("ls")));
    assert_eq!(p.fallback_result(&mut run, (4, s("e2"))), Some((4, s("e2"))));
    p.record("other", &(5, s("no")));
    assert_eq!(p.cached("other"), None);
    p.record("other", &(0, s("yes")));
    p.maintain_cache();
    assert_eq!(p.cached("other"), Some((0, s("yes"))));
}
