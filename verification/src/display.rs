//! Layout of terminal output: spinners, progress bars and the framing of
//! tool runs.
use vstd::prelude::*;
use crate::style::{paint, wraps, Tone};
use crate::text::{
    chars_of, decimal, decimal_chars, join, join_chars, lemma_views_push, lines, lines_of,
    push_chars, push_str, repeat, repeat_chars, string_of, string_views, views,
};

verus! {

/// Prefixes for the kinds of messages.
pub struct DisplayStyle {
    pub user_prefix: String,
    pub assistant_prefix: String,
    pub tool_prefix: String,
    pub error_prefix: String,
    pub success_prefix: String,
}

impl Default for DisplayStyle {
    fn default() -> (d: Self)
        ensures
            d.user_prefix@ == "»"@,
            d.assistant_prefix@ == "┃"@,
            d.tool_prefix@ == "┃"@,
            d.error_prefix@ == "✗"@,
            d.success_prefix@ == "✓"@,
    {
        DisplayStyle {
            user_prefix: string_of(&chars_of("»")),
            assistant_prefix: string_of(&chars_of("┃")),
            tool_prefix: string_of(&chars_of("┃")),
            error_prefix: string_of(&chars_of("✗")),
            success_prefix: string_of(&chars_of("✓")),
        }
    }
}

/// The frames of the spinner, in order.
pub open spec fn spinner_frames() -> Seq<Seq<char>> {
    seq![
        "⠋"@,
        "⠙"@,
        "⠹"@,
        "⠸"@,
        "⠼"@,
        "⠴"@,
        "⠦"@,
        "⠧"@,
        "⠇"@,
        "⠏"@,
    ]
}

/// A spinner for long operations: each tick shows the next frame.
pub struct Spinner {
    frames: Vec<&'static str>,
    current: usize,
    message: String,
}

impl Spinner {
    #[verifier::type_invariant]
    spec fn well_formed(&self) -> bool {
        &&& self.frames@.len() == 10
        &&& forall|i: int| 0 <= i < 10 ==> #[trigger] self.frames@[i]@ == spinner_frames()[i]
        &&& self.current < 10
    }

    /// The index of the frame that the next tick shows.
    pub closed spec fn frame_index(&self) -> nat {
        self.current as nat
    }

    /// The message shown beside the frame.
    pub closed spec fn message(&self) -> Seq<char> {
        self.message@
    }

    /// A spinner at its first frame.
    pub fn new(message: &str) -> (s: Self)
        ensures
            s.frame_index() == 0,
            s.message() == message@,
    {
        let frames = vec!["⠋", "⠙", "⠹", "⠸", "⠼", "⠴", "⠦", "⠧", "⠇", "⠏"];
        Spinner { frames, current: 0, message: string_of(&chars_of(message)) }
    }

    /// The current frame and the message, separated by a space; moves on to
    /// the next frame, after the last to the first.
    pub fn tick(&mut self) -> (r: String)
        ensures
            r@ == spinner_frames()[old(self).frame_index() as int] + seq![' '] + old(
                self,
            ).message(),
            final(self).frame_index() == (old(self).frame_index() + 1) % 10,
            final(self).message() == old(self).message(),
    {
        proof {
            use_type_invariant(&*self);
        }
        let frame = self.frames[self.current];
        let mut out = chars_of(frame);
        out.push(' ');
        push_str(&mut out, self.message.as_str());
        assert(self.frames@[self.current as int]@ == spinner_frames()[self.current as int]);
        self.current = (self.current + 1) % 10;
        string_of(&out)
    }
}

/// A progress bar for operations of known length.
pub struct ProgressBar {
    width: usize,
    current: usize,
    total: usize,
    message: String,
}

/// The bar of `width` places with `filled` of them filled, the percentage
/// and the message.
pub open spec fn bar_text(width: nat, filled: nat, percentage: nat, message: Seq<char>) -> Seq<char> {
    seq!['['] + repeat(seq!['='], filled) + repeat(seq![' '], (width - filled) as nat) + "] "@
        + decimal(percentage) + "% "@ + message
}

impl ProgressBar {
    #[verifier::type_invariant]
    spec fn well_formed(&self) -> bool {
        &&& self.width == 40
        &&& self.current <= self.total
    }

    /// The amount of work done.
    pub closed spec fn current(&self) -> nat {
        self.current as nat
    }

    /// The amount of work in all.
    pub closed spec fn total(&self) -> nat {
        self.total as nat
    }

    /// The message shown after the bar.
    pub closed spec fn message(&self) -> Seq<char> {
        self.message@
    }

    /// The number of places in the bar.
    pub open spec fn width() -> nat {
        40
    }

    /// A bar with nothing done yet.
    pub fn new(total: usize, message: &str) -> (b: Self)
        ensures
            b.current() == 0,
            b.total() == total,
            b.message() == message@,
    {
        ProgressBar { width: 40, current: 0, total, message: string_of(&chars_of(message)) }
    }

    /// Sets the amount done, at most the total.
    pub fn update(&mut self, current: usize)
        ensures
            final(self).current() == if current <= old(self).total() {
                current as nat
            } else {
                old(self).total()
            },
            final(self).total() == old(self).total(),
            final(self).message() == old(self).message(),
    {
        proof {
            use_type_invariant(&*self);
        }
        self.current = if current < self.total {
            current
        } else {
            self.total
        };
    }

    /// The number of filled places: the width times the amount done,
    /// divided by the total (by one when the total is zero).
    pub open spec fn filled(&self) -> nat {
        (Self::width() * self.current()) / (if self.total() > 0 {
            self.total()
        } else {
            1
        })
    }

    /// The bar with the given percentage written after it:
    /// `[===   ] 50% message`.
    pub fn render_with_percentage(&self, percentage: usize) -> (r: String)
        requires
            Self::width() * self.current() <= usize::MAX,
        ensures
            r@ == bar_text(Self::width(), self.filled(), percentage as nat, self.message()),
    {
        proof {
            use_type_invariant(self);
        }
        let divisor = if self.total > 1 {
            self.total
        } else {
            1
        };
        let filled = (self.width * self.current) / divisor;
        assert(self.current <= divisor);
        assert(filled <= self.width) by (nonlinear_arith)
            requires
                filled as int == (self.width as int * self.current as int) / divisor as int,
                self.current <= divisor,
                divisor >= 1,
        ;
        assert(filled == self.filled());
        let empty = self.width - filled;
        let mut out: Vec<char> = vec!['['];
        let eq: Vec<char> = vec!['='];
        let sp: Vec<char> = vec![' '];
        assert(out@ =~= seq!['[']);
        assert(eq@ =~= seq!['=']);
        assert(sp@ =~= seq![' ']);
        let bar = repeat_chars(&eq, filled);
        push_chars(&mut out, &bar);
        let gap = repeat_chars(&sp, empty);
        push_chars(&mut out, &gap);
        push_str(&mut out, "] ");
        let pct = decimal_chars(percentage);
        push_chars(&mut out, &pct);
        push_str(&mut out, "% ");
        push_str(&mut out, self.message.as_str());
        assert(out@ =~= bar_text(Self::width(), self.filled(), percentage as nat, self.message()));
        string_of(&out)
    }
}

/// The header shown above a tool run: a coloured "actions" caption, then
/// the tool and its arguments.
pub fn format_tool_header(tool_name: &str, args: &str) -> (r: String)
    ensures
        exists|caption: Seq<char>, call: Seq<char>|
            wraps(caption, "actions"@) && wraps(call, tool_name@ + ": "@ + args@) && r@ == "┏━ "@
                + caption + "\n┃ "@ + call,
{
    let caption = paint("actions", Tone::Cyan);
    let mut call_text = chars_of(tool_name);
    push_str(&mut call_text, ": ");
    push_str(&mut call_text, args);
    let call_s = string_of(&call_text);
    let call = paint(call_s.as_str(), Tone::White);
    let mut out = chars_of("┏━ ");
    push_str(&mut out, caption.as_str());
    push_str(&mut out, "\n┃ ");
    push_str(&mut out, call.as_str());
    assert(out@ =~= "┏━ "@ + caption@ + "\n┃ "@ + call@);
    string_of(&out)
}

/// The footer shown below a tool run, given the text of its duration: a
/// green "completed in ..." or a red "failed after ..." inside a rule.
pub fn format_tool_footer_with(duration_text: &str, success: bool) -> (r: String)
    ensures
        exists|status: Seq<char>|
            wraps(
                status,
                if success {
                    "completed in "@ + duration_text@
                } else {
                    "failed after "@ + duration_text@
                },
            ) && r@ == "╰────────────────────────────────────── "@ + status + " ────────"@,
{
    let mut s = if success {
        chars_of("completed in ")
    } else {
        chars_of("failed after ")
    };
    push_str(&mut s, duration_text);
    let st = string_of(&s);
    let status = if success {
        paint(st.as_str(), Tone::Green)
    } else {
        paint(st.as_str(), Tone::Red)
    };
    let mut out = chars_of("╰────────────────────────────────────── ");
    push_str(&mut out, status.as_str());
    push_str(&mut out, " ────────");
    string_of(&out)
}

/// The lines of tool output shown: all of them, or with `Some(max)` and more
/// than `max` lines, the first `max - 1` and a line that counts the rest.
pub open spec fn shown_output_lines(output: Seq<char>, max_lines: Option<usize>) -> Seq<Seq<char>> {
    let ls = lines(output);
    match max_lines {
        Some(max) => if ls.len() > max {
            ls.take(max - 1).push("... ("@ + decimal((ls.len() - max + 1) as nat) + " more lines)"@)
        } else {
            ls
        },
        None => ls,
    }
}

/// Each line with the box-drawing prefix "│ ".
pub open spec fn boxed(ls: Seq<Seq<char>>) -> Seq<Seq<char>> {
    ls.map_values(|l: Seq<char>| "│ "@ + l)
}

/// Tool output in a box: each shown line prefixed with "│ ", joined with
/// line breaks.
pub fn format_tool_output(output: &str, max_lines: Option<usize>) -> (r: String)
    requires
        max_lines == Some(0usize) ==> lines(output@).len() == 0,
    ensures
        r@ == join(boxed(shown_output_lines(output@, max_lines)), seq!['\n']),
{
    let text = chars_of(output);
    let ls = lines_of(&text);
    let mut shown: Vec<Vec<char>> = Vec::new();
    let keep: usize = match max_lines {
        Some(max) => if ls.len() > max {
            max - 1
        } else {
            ls.len()
        },
        None => ls.len(),
    };
    let mut i: usize = 0;
    while i < keep
        invariant
            i <= keep <= ls.len(),
            views(shown@) == boxed(views(ls@).take(i as int)),
        decreases keep - i,
    {
        let mut line = chars_of("│ ");
        push_chars(&mut line, &ls[i]);
        proof {
            lemma_views_push(shown@, line);
        }
        shown.push(line);
        assert(boxed(views(ls@).take(i + 1)) =~= boxed(views(ls@).take(i as int)).push(
            "│ "@ + ls@[i as int]@,
        ));
        i = i + 1;
    }
    if keep < ls.len() {
        let mut more = chars_of("│ ");
        push_str(&mut more, "... (");
        let n = decimal_chars(ls.len() - keep);
        push_chars(&mut more, &n);
        push_str(&mut more, " more lines)");
        let ghost max = max_lines->0;
        assert(ls@.len() > max && keep == max - 1);
        let ghost tail_line = "... ("@ + decimal((views(ls@).len() - max + 1) as nat) + " more lines)"@;
        assert(more@ =~= "│ "@ + tail_line);
        proof {
            lemma_views_push(shown@, more);
        }
        shown.push(more);
        assert(shown_output_lines(output@, max_lines) == views(ls@).take(keep as int).push(tail_line));
        assert(boxed(views(ls@).take(keep as int).push(tail_line)) =~= boxed(views(ls@).take(keep as int)).push("│ "@ + tail_line));
        assert(views(shown@) =~= boxed(shown_output_lines(output@, max_lines)));
    } else {
        assert(views(ls@).take(keep as int) =~= views(ls@));
        assert(views(shown@) =~= boxed(shown_output_lines(output@, max_lines)));
    }
    let nl: Vec<char> = vec!['\n'];
    assert(nl@ =~= seq!['\n']);
    let out = join_chars(&shown, &nl);
    string_of(&out)
}

/// An error message in red after a red cross, with the context, if any,
/// on the next line in grey.
pub fn format_error(error: &str, context: Option<&str>) -> (r: String)
    ensures
        context is None ==> exists|cross: Seq<char>, msg: Seq<char>|
            #![trigger wraps(cross, "✗"@), wraps(msg, error@)]
            wraps(cross, "✗"@) && wraps(msg, error@) && r@ == cross + seq![' '] + msg,
        context matches Some(c) ==> exists|cross: Seq<char>, msg: Seq<char>, ctx: Seq<char>|
            #![trigger wraps(cross, "✗"@), wraps(msg, error@), wraps(ctx, c@)]
            wraps(cross, "✗"@) && wraps(msg, error@) && wraps(ctx, c@) && r@ == cross + seq![' ']
                + msg + "\n  "@ + ctx,
{
    let cross = paint("✗", Tone::Red);
    let msg = paint(error, Tone::Red);
    let mut out = chars_of(cross.as_str());
    out.push(' ');
    push_str(&mut out, msg.as_str());
    match context {
        Some(c) => {
            let ctx = paint(c, Tone::DarkGrey);
            push_str(&mut out, "\n  ");
            push_str(&mut out, ctx.as_str());
            assert(out@ =~= cross@ + seq![' '] + msg@ + "\n  "@ + ctx@);
        },
        None => {
            assert(out@ =~= cross@ + seq![' '] + msg@);
        },
    }
    string_of(&out)
}

/// A success message in green after a green check mark.
pub fn format_success(message: &str) -> (r: String)
    ensures
        exists|check: Seq<char>, msg: Seq<char>|
            wraps(check, "✓"@) && wraps(msg, message@) && r@ == check + seq![' '] + msg,
{
    let check = paint("✓", Tone::Green);
    let msg = paint(message, Tone::Green);
    let mut out = chars_of(check.as_str());
    out.push(' ');
    push_str(&mut out, msg.as_str());
    assert(out@ =~= check@ + seq![' '] + msg@);
    string_of(&out)
}

/// The lines that `textwrap::wrap` gives for the text at the width, with
/// the default options but for `break_words`, which says whether a word
/// longer than the width is broken.
pub uninterp spec fn textwrap_wrap(text: Seq<char>, width: usize, break_words: bool) -> Seq<Seq<char>>;

/// `textwrap::wrap` with `Options::new(width).break_words(break_words)`, each
/// line made an owned string. (`textwrap::wrap(text, width)` is the case
/// `break_words == true`.)
#[verifier::external_body]
pub(crate) fn wrap_text(text: &str, width: usize, break_words: bool) -> (r: Vec<String>)
    ensures
        string_views(r@) == textwrap_wrap(text@, width, break_words),
{
    let options = textwrap::Options::new(width).break_words(break_words);
    textwrap::wrap(text, options).iter().map(|s| s.to_string()).collect()
}

/// Text wrapped to the given width for streaming display.
pub fn format_streaming_text(text: &str, width: usize) -> (r: Vec<String>)
    ensures
        string_views(r@) == textwrap_wrap(text@, width, true),
{
    wrap_text(text, width, true)
}

/// What an answer to a yes/no question means: "y" or "yes" in any case,
/// with spaces around it, is yes; "n" or "no" is no; anything else is the
/// default.
pub open spec fn answer_means(input: Seq<char>, default: bool) -> bool {
    let t = crate::processor::lowercase(crate::text::trim(input));
    if t == "y"@ || t == "yes"@ {
        true
    } else if t == "n"@ || t == "no"@ {
        false
    } else {
        default
    }
}

/// What an answer to a confirmation prompt means: yes for "y" or "yes", no
/// for "n" or "no" (in any case), else the default.
pub fn confirmation_answer(input: &str, default: bool) -> (r: bool)
    ensures
        r == answer_means(input@, default),
{
    let t = string_of(&crate::text::trim_chars(&chars_of(input)));
    let lower = chars_of(crate::processor::to_lower(t.as_str()).as_str());
    if crate::text::eq_str(&lower, "y") || crate::text::eq_str(&lower, "yes") {
        true
    } else if crate::text::eq_str(&lower, "n") || crate::text::eq_str(&lower, "no") {
        false
    } else {
        default
    }
}

/// The choices a confirmation prompt shows, the default in capitals.
pub fn confirmation_choices(default: bool) -> (r: &'static str)
    ensures
        r@ == (if default {
            "Y/n"@
        } else {
            "y/N"@
        }),
{
    if default {
        "Y/n"
    } else {
        "y/N"
    }
}

} // verus!
