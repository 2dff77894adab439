use prime::terminal_ui::PrimeHelper;

fn s(x: &str) -> String {
    x.to_string()
}

#[test]
fn terminal_hints() {
    let h = PrimeHelper::new("prime");
    assert_eq!(h.hint("!", 1), Some(s(" type command e.g. help, list, exit")));
    assert_eq!(h.hint("!he", 3), Some(s("lp")));
    assert_eq!(h.hint("!memory sh", 10), Some(s("ort")));
    assert_eq!(h.hint("!memory xyz", 11), Some(s(" [short|long|all]")));
    assert_eq!(h.hint("!memory all", 11), None);
    assert_eq!(h.hint("!read abc", 9), Some(s(" <message_number>")));
    assert_eq!(h.hint("!read 12", 8), None);
    assert_eq!(h.hint("ex", 2), Some(s("it")));
    assert_eq!(h.hint("qui", 3), Some(s("t")));
    assert_eq!(h.hint("qu", 2), None);
    assert_eq!(h.hint("!he", 1), None);
    assert_eq!(h.hint("   ", 3), None);
}

#[test]
fn terminal_completions() {
    let h = PrimeHelper::new("prime");
    let (start, c) = h.complete("!", 1);
    assert_eq!(start, 1);
    assert_eq!(c.len(), 8);
    assert_eq!((c[0].display.as_str(), c[0].replacement.as_str()), ("!help", "help"));
    let (start, c) = h.complete("!c", 2);
    assert_eq!(start, 1);
    let names: Vec<String> = c.into_iter().map(|c| c.replacement).collect();
    assert_eq!(names, vec![s("clear"), s("cls")]);
    let (start, c) = h.complete("!memory l", 9);
    assert_eq!(start, 8);
    assert_eq!(c.len(), 1);
    assert_eq!(c[0].replacement, "long");
    let (start, c) = h.complete("plain", 5);
    assert_eq!((start, c.len()), (0, 0));
}

#[test]
fn terminal_highlight() {
    let h = PrimeHelper::new("prime");
    assert_eq!(h.highlight("hello there"), "hello there");
    let out = h.highlight("!help now");
    assert!(out.contains("!help"));
    assert!(out.ends_with(" now"));
    let out = h.highlight("!memory long");
    assert!(out.contains(" long"));
}
