use prime::ui::{err_tag, ok_tag};
use prime::display::{
    format_error, format_streaming_text, format_success, format_tool_output, ProgressBar, Spinner,
};

#[test]
fn test_spinner() {
    let mut spinner = Spinner::new("Loading");
    let frame1 = spinner.tick();
    let frame2 = spinner.tick();
    assert_ne!(frame1, frame2);
    assert!(frame1.contains("Loading"));
}

#[test]
fn test_progress_bar() {
    let mut bar = ProgressBar::new(100, "Processing");
    bar.update(50);
    let percentage = (50usize as f64 / 100usize as f64 * 100.0) as usize;
    let output = bar.render_with_percentage(percentage);
    assert!(output.contains("50%"));
    assert!(output.contains("Processing"));
}

#[test]
fn test_text_wrapping() {
    let text = "This is a very long line that should be wrapped at the specified width";
    let wrapped = format_streaming_text(text, 20);
    assert!(wrapped.len() > 1);
    assert!(wrapped.iter().all(|line| line.len() <= 20));
}

#[test]
fn spinner_cycles_through_ten_frames() {
    let mut spinner = Spinner::new("x");
    let first = spinner.tick();
    for _ in 0..9 {
        spinner.tick();
    }
    assert_eq!(spinner.tick(), first);
    assert_eq!(first, "⠋ x");
}

#[test]
fn progress_bar_exact_text() {
    let mut bar = ProgressBar::new(4, "job");
    bar.update(1);
    assert_eq!(bar.render_with_percentage(25), format!("[{}{}] 25% job", "=".repeat(10), " ".repeat(30)));
    bar.update(99);
    assert_eq!(bar.render_with_percentage(100), format!("[{}] 100% job", "=".repeat(40)));
}

#[test]
fn progress_bar_with_zero_total_is_empty() {
    let bar = ProgressBar::new(0, "none");
    assert_eq!(bar.render_with_percentage(0), format!("[{}] 0% none", " ".repeat(40)));
}

#[test]
fn tool_output_is_capped_by_lines() {
    assert_eq!(format_tool_output("a\nb\nc", Some(2)), "│ a\n│ ... (2 more lines)");
    assert_eq!(format_tool_output("a\nb", Some(2)), "│ a\n│ b");
    assert_eq!(format_tool_output("a\nb", None), "│ a\n│ b");
}

#[test]
fn error_and_success_messages_carry_their_text() {
    assert!(format_error("boom", Some("while testing")).contains("boom"));
    assert!(format_error("boom", Some("while testing")).contains("while testing"));
    assert!(format_success("done").contains("done"));
}

#[test]
fn painted_texts_carry_control_sequences() {
    let ok = ok_tag("x");
    assert!(ok.contains("[OK] x"));
    assert!(ok.len() > "[OK] x".len());
    assert!(ok.starts_with('\u{1b}'));
    assert!(err_tag("y").contains("[ERR] y"));
}
