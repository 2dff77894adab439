use prime::console::{classify_input, keeps_running, parse_special_command, PrimeHelper, ReplInput, SpecialCommand};

fn s(x: &str) -> String {
    x.to_string()
}

#[test]
fn prompt_lines_are_classified() {
    assert_eq!(classify_input("   "), ReplInput::Empty);
    assert_eq!(classify_input(" ExIt "), ReplInput::Quit);
    assert_eq!(classify_input("QUIT"), ReplInput::Quit);
    assert_eq!(classify_input("  !memory long "), ReplInput::Special(s("memory long")));
    assert_eq!(classify_input(" list files "), ReplInput::Request(s("list files")));
}

#[test]
fn special_commands_are_parsed() {
    assert_eq!(parse_special_command("clear"), SpecialCommand::Clear);
    assert_eq!(parse_special_command("CLS"), SpecialCommand::Clear);
    assert_eq!(parse_special_command("help me"), SpecialCommand::Help);
    assert_eq!(parse_special_command("log"), SpecialCommand::Log);
    assert_eq!(parse_special_command("memory long"), SpecialCommand::Memory(Some(s("long_term"))));
    assert_eq!(parse_special_command("Memory short"), SpecialCommand::Memory(Some(s("short_term"))));
    assert_eq!(parse_special_command("memory"), SpecialCommand::Memory(None));
    assert_eq!(parse_special_command("tools"), SpecialCommand::Tools);
    assert_eq!(parse_special_command("Quit"), SpecialCommand::Exit);
    assert_eq!(parse_special_command("Frob x"), SpecialCommand::Unknown(s("frob")));
    assert!(!keeps_running(&SpecialCommand::Exit));
    assert!(keeps_running(&SpecialCommand::Help));
}

#[test]
fn console_hints() {
    let h = PrimeHelper {};
    assert_eq!(h.hint("ex", 2), Some(s("it")));
    assert_eq!(h.hint("!mem", 4), Some(s("ory")));
    assert_eq!(h.hint("!memory ", 8), Some(s("long")));
    assert_eq!(h.hint("!mem", 2), None);
    assert_eq!(h.hint("!tools", 6), None);
    assert_eq!(h.hint("zzz", 3), None);
}

#[test]
fn console_completions() {
    let h = PrimeHelper {};
    let (start, c) = h.complete("!me", 3);
    assert_eq!(start, 3);
    let pairs: Vec<(String, String)> = c.into_iter().map(|c| (c.display, c.replacement)).collect();
    assert_eq!(
        pairs,
        vec![
            (s("!memory (memory)"), s("memory")),
            (s("!memory long (memory long)"), s("memory long")),
            (s("!memory short (memory short)"), s("memory short")),
        ]
    );
    let (start, c) = h.complete("hello", 5);
    assert_eq!((start, c.len()), (0, 0));
}

#[test]
fn console_highlight() {
    let h = PrimeHelper {};
    assert_eq!(h.highlight("plain"), "plain");
    let out = h.highlight("!memory long");
    assert!(out.starts_with('!'));
    assert!(out.contains("memory"));
    assert!(out.ends_with(" long"));
}
