//! Terminal colours for the text this library lays out.
use crossterm::style::{Color, Stylize};
use vstd::prelude::*;

verus! {

/// The colours the library uses.
#[derive(Debug, Clone, Copy, PartialEq, Eq)]
pub enum Tone {
    Red,
    Green,
    Yellow,
    Blue,
    Cyan,
    Magenta,
    White,
    DarkGrey,
}

/// `r` is `text` with terminal control sequences around it: something that
/// starts with an escape character before it, and something that starts
/// with an escape character after it.
pub open spec fn wraps(r: Seq<char>, text: Seq<char>) -> bool {
    exists|p: Seq<char>, q: Seq<char>|
        #![trigger p + text + q]
        p.len() > 0 && p[0] == '\x1b' && q.len() > 0 && q[0] == '\x1b' && r == p + text + q
}

/// The text in a foreground colour: crossterm's `Stylize::with`, shown
/// through its `Display`. The control sequences written around the text
/// depend on the `NO_COLOR` environment variable (with it set they carry no
/// colour code, but are still written), so only their shape is stated: each
/// begins with an escape character. This is what crossterm writes wherever
/// it writes ANSI sequences; a Windows console without ANSI support, where it
/// writes none, is not a target of this library.
#[verifier::external_body]
pub(crate) fn paint(text: &str, tone: Tone) -> (r: String)
    ensures
        wraps(r@, text@),
{
    let color = match tone {
        Tone::Red => Color::Red,
        Tone::Green => Color::Green,
        Tone::Yellow => Color::Yellow,
        Tone::Blue => Color::Blue,
        Tone::Cyan => Color::Cyan,
        Tone::Magenta => Color::Magenta,
        Tone::White => Color::White,
        Tone::DarkGrey => Color::DarkGrey,
    };
    text.with(color).to_string()
}

/// The text in bold and a foreground colour: crossterm's `Stylize::bold`
/// and `Stylize::with`, shown through its `Display`; as with `paint`, only
/// the shape of the control sequences is stated.
#[verifier::external_body]
pub(crate) fn paint_bold(text: &str, tone: Tone) -> (r: String)
    ensures
        wraps(r@, text@),
{
    let color = match tone {
        Tone::Red => Color::Red,
        Tone::Green => Color::Green,
        Tone::Yellow => Color::Yellow,
        Tone::Blue => Color::Blue,
        Tone::Cyan => Color::Cyan,
        Tone::Magenta => Color::Magenta,
        Tone::White => Color::White,
        Tone::DarkGrey => Color::DarkGrey,
    };
    text.bold().with(color).to_string()
}

} // verus!
