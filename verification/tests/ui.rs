use prime::ui::preview;

#[test]
fn preview_caps_characters_and_lines() {
    assert_eq!(preview("héllo", 5, 2), "hé\n… (truncated)");
    assert_eq!(preview("  short  ", 5, 100), "short");
    assert_eq!(preview("a\nb\nc", 2, 100), "a\nb\n… (output truncated)");
}
