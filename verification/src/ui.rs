//! Compact terminal sections: rules, titles, tags, previews and panels.
use vstd::prelude::*;
use crate::style::{paint, paint_bold, wraps, Tone};
use crate::text::{
    chars_of, join, join_chars, lines, lines_of, push_str, repeat, repeat_chars, slice_chars,
    string_of, trim, trim_chars, views,
};

verus! {

/// The width of rules and panels.
pub const WIDTH: usize = 70;

/// A thin grey horizontal rule of `WIDTH` box-drawing characters.
pub fn hr() -> (r: String)
    ensures
        wraps(r@, repeat("─"@, WIDTH as nat)),
{
    let line = chars_of("─");
    let rule = repeat_chars(&line, WIDTH);
    let text = string_of(&rule);
    paint(text.as_str(), Tone::DarkGrey)
}

/// `h` is a block character, a space and the title with terminal styling
/// around it.
pub open spec fn is_title_line(h: Seq<char>, title: Seq<char>) -> bool {
    exists|t: Seq<char>| wraps(t, title) && h == "█ "@ + t
}

/// A section title: a block character, then the title in bold white.
pub fn title_line(title: &str) -> (r: String)
    ensures
        is_title_line(r@, title@),
{
    let t = paint_bold(title, Tone::White);
    let mut out = chars_of("█ ");
    push_str(&mut out, t.as_str());
    string_of(&out)
}

/// A bullet line: two spaces, a bullet and the text.
pub fn bullet_line(text: &str) -> (r: String)
    ensures
        r@ == "  • "@ + text@,
{
    let mut out = chars_of("  • ");
    push_str(&mut out, text);
    string_of(&out)
}

/// "[OK] " and the text, in green.
pub fn ok_tag(text: &str) -> (r: String)
    ensures
        wraps(r@, "[OK] "@ + text@),
{
    let mut s = chars_of("[OK] ");
    push_str(&mut s, text);
    let s = string_of(&s);
    paint(s.as_str(), Tone::Green)
}

/// "[WARN] " and the text, in yellow.
pub fn warn_tag(text: &str) -> (r: String)
    ensures
        wraps(r@, "[WARN] "@ + text@),
{
    let mut s = chars_of("[WARN] ");
    push_str(&mut s, text);
    let s = string_of(&s);
    paint(s.as_str(), Tone::Yellow)
}

/// "[ERR] " and the text, in red.
pub fn err_tag(text: &str) -> (r: String)
    ensures
        wraps(r@, "[ERR] "@ + text@),
{
    let mut s = chars_of("[ERR] ");
    push_str(&mut s, text);
    let s = string_of(&s);
    paint(s.as_str(), Tone::Red)
}

/// The trimmed text, cut to `max_chars` characters with a note when longer.
pub open spec fn capped_text(text: Seq<char>, max_chars: nat) -> Seq<char> {
    let s = trim(text);
    if s.len() > max_chars {
        s.take(max_chars as int) + "\n… (truncated)"@
    } else {
        s
    }
}

/// A compact preview of a long text: trimmed, cut to `max_chars` characters
/// (with a note), at most `max_lines` of its lines, and a note when the text
/// had more lines than that.
pub open spec fn preview_text(text: Seq<char>, max_lines: nat, max_chars: nat) -> Seq<char> {
    let shown = lines(capped_text(text, max_chars));
    let kept = if shown.len() > max_lines {
        shown.take(max_lines as int)
    } else {
        shown
    };
    let joined = join(kept, seq!['\n']);
    if lines(text).len() > max_lines {
        joined + "\n… (output truncated)"@
    } else {
        joined
    }
}

/// A compact preview of a long text: its lines and characters capped.
pub fn preview(text: &str, max_lines: usize, max_chars: usize) -> (r: String)
    ensures
        r@ == preview_text(text@, max_lines as nat, max_chars as nat),
{
    let all = chars_of(text);
    let mut s = trim_chars(&all);
    if s.len() > max_chars {
        let mut cut = slice_chars(&s, 0, max_chars);
        assert(cut@ =~= s@.take(max_chars as int));
        push_str(&mut cut, "\n… (truncated)");
        s = cut;
    }
    let ls = lines_of(&s);
    let mut kept: Vec<Vec<char>> = Vec::new();
    let mut i: usize = 0;
    let n = if ls.len() > max_lines {
        max_lines
    } else {
        ls.len()
    };
    while i < n
        invariant
            i <= n <= ls.len(),
            views(kept@) == views(ls@).take(i as int),
        decreases n - i,
    {
        let line = slice_chars(&ls[i], 0, ls[i].len());
        assert(line@ =~= ls@[i as int]@);
        proof {
            crate::text::lemma_views_push(kept@, line);
        }
        kept.push(line);
        assert(views(ls@).take(i + 1) =~= views(ls@).take(i as int).push(ls@[i as int]@));
        i = i + 1;
    }
    if ls.len() <= max_lines {
        assert(views(ls@).take(n as int) =~= views(ls@));
    }
    let nl: Vec<char> = vec!['\n'];
    assert(nl@ =~= seq!['\n']);
    let mut joined = join_chars(&kept, &nl);
    let text_lines = lines_of(&all);
    if text_lines.len() > max_lines {
        push_str(&mut joined, "\n… (output truncated)");
    }
    string_of(&joined)
}

/// A panel: a rule, the title line, the body when it is not blank, and a
/// closing rule, each on its own line.
pub fn panel(title: &str, body: &str) -> (r: String)
    ensures
        exists|top: Seq<char>, head: Seq<char>, bottom: Seq<char>|
            #![trigger wraps(top, repeat("─"@, WIDTH as nat)), wraps(bottom, repeat("─"@, WIDTH as nat)), is_title_line(head, title@)]
            wraps(top, repeat("─"@, WIDTH as nat)) && wraps(bottom, repeat("─"@, WIDTH as nat))
                && is_title_line(head, title@) && r@ == top
                + seq!['\n'] + head + (if trim(body@).len() > 0 {
                seq!['\n'] + body@
            } else {
                Seq::empty()
            }) + seq!['\n'] + bottom,
{
    let top = hr();
    let head = title_line(title);
    let mut out = chars_of(top.as_str());
    out.push('\n');
    push_str(&mut out, head.as_str());
    let b = chars_of(body);
    let bt = trim_chars(&b);
    if bt.len() > 0 {
        out.push('\n');
        push_str(&mut out, body);
    }
    out.push('\n');
    let bottom = hr();
    push_str(&mut out, bottom.as_str());
    assert(out@ =~= top@ + seq!['\n'] + head@ + (if trim(body@).len() > 0 {
        seq!['\n'] + body@
    } else {
        Seq::empty()
    }) + seq!['\n'] + bottom@);
    string_of(&out)
}

} // verus!
