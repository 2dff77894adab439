//! The line editor's helper of the terminal interface: hints, completions
//! and highlighting for the `!` commands.
use vstd::prelude::*;
use crate::console::Candidate;
use crate::style::{paint, wraps, Tone};
use crate::text::{
    chars_of, eq_chars, eq_str, fit_chars, fit_chars_exec, lemma_fit_chars_whole, parse_usize, parse_usize_chars, push_str, rfind, rfind_chars,
    slice_chars, starts_with, starts_with_chars, string_of, utf8_len, utf8_len_chars, views, words,
    words_of,
};

verus! {

/// The line editor's helper, for an application of the given name.
#[derive(Debug, Clone)]
pub struct PrimeHelper {
    app_name: String,
}

/// The special commands, without their `!`.
pub open spec fn special_words() -> Seq<Seq<char>> {
    seq!["help"@, "memory"@, "list"@, "read"@, "clear"@, "cls"@, "exit"@, "quit"@]
}

/// The arguments of `!memory`.
pub open spec fn memory_words() -> Seq<Seq<char>> {
    seq!["short"@, "long"@, "all"@]
}

/// The rest of the first word, from `i` on, that `w` is a proper beginning
/// of.
pub open spec fn rest_of_first(ws: Seq<Seq<char>>, w: Seq<char>, i: int) -> Option<Seq<char>>
    decreases ws.len() - i,
{
    if i < 0 || i >= ws.len() {
        None
    } else if starts_with(ws[i], w) && w.len() < ws[i].len() {
        Some(ws[i].skip(w.len() as int))
    } else {
        rest_of_first(ws, w, i + 1)
    }
}

/// The hint for a whole line (the cursor at its end).
pub open spec fn line_hint(line: Seq<char>) -> Option<Seq<char>> {
    let parts = words(line);
    if parts.len() == 0 {
        None
    } else if parts[0].len() > 0 && parts[0][0] == '!' {
        let first = parts[0];
        if parts.len() == 1 {
            if first == "!"@ {
                Some(" type command e.g. help, list, exit"@)
            } else {
                rest_of_first(special_words(), first.skip(1), 0)
            }
        } else if parts.len() == 2 && first == "!memory"@ {
            let arg = parts[1];
            if arg.len() == 0 || (!memory_words().contains(arg) && !(exists|j: int|
                0 <= j < 3 && starts_with(#[trigger] memory_words()[j], arg))) {
                Some(" [short|long|all]"@)
            } else {
                rest_of_first(memory_words(), arg, 0)
            }
        } else if parts.len() == 2 && first == "!read"@ {
            if parts[1].len() == 0 || parse_usize(parts[1]) is None {
                Some(" <message_number>"@)
            } else {
                None
            }
        } else {
            None
        }
    } else if line == "ex"@ {
        Some("it"@)
    } else if line == "qui"@ {
        Some("t"@)
    } else {
        None
    }
}

/// The characters of a text after its first `n` bytes.
pub open spec fn bytes_after(s: Seq<char>, n: nat) -> Seq<char> {
    s.skip(fit_chars(s, n))
}

/// The characters of a text's first `n` bytes.
pub open spec fn bytes_before(s: Seq<char>, n: nat) -> Seq<char> {
    s.take(fit_chars(s, n))
}

/// Whether the first `n` bytes of a text end between characters.
pub open spec fn cut_ok(s: Seq<char>, n: nat) -> bool {
    utf8_len(s.take(fit_chars(s, n))) == n
}

/// The completions of the words, from `i` on, that begin with `prefix`:
/// each shown with `mark` before it and replaced by the word.
pub open spec fn word_completions(ws: Seq<Seq<char>>, prefix: Seq<char>, mark: Seq<char>, i: int) -> Seq<
    (Seq<char>, Seq<char>),
>
    decreases ws.len() - i,
{
    if i < 0 || i >= ws.len() {
        Seq::empty()
    } else if starts_with(ws[i], prefix) {
        seq![(mark + ws[i], ws[i])] + word_completions(ws, prefix, mark, i + 1)
    } else {
        word_completions(ws, prefix, mark, i + 1)
    }
}

/// The completions of a line whose text before the cursor is `before`, and
/// where they start.
pub open spec fn line_completions(line: Seq<char>, before: Seq<char>, pos: int) -> (
    int,
    Seq<(Seq<char>, Seq<char>)>,
) {
    let parts = words(before);
    if !(line.len() > 0 && line[0] == '!') {
        (0, Seq::empty())
    } else if parts.len() == 0 || (parts.len() == 1 && parts[0] == "!"@) {
        (1, word_completions(special_words(), Seq::empty(), "!"@, 0))
    } else if parts.len() == 1 && parts[0].len() > 0 && parts[0][0] == '!' {
        (1, word_completions(special_words(), parts[0].skip(1), "!"@, 0))
    } else if parts.len() == 2 && parts[0] == "!memory"@ {
        let start = match rfind(line, parts[1]) {
            Some(k) => utf8_len(line.take(k)) as int,
            None => pos,
        };
        (start, word_completions(memory_words(), parts[1], Seq::empty(), 0))
    } else {
        (0, Seq::empty())
    }
}

/// The word lists as vectors of characters.
fn word_list(which: bool) -> (r: Vec<Vec<char>>)
    ensures
        which ==> views(r@) == special_words(),
        !which ==> views(r@) == memory_words(),
{
    let mut r: Vec<Vec<char>> = Vec::new();
    if which {
        r.push(chars_of("help"));
        r.push(chars_of("memory"));
        r.push(chars_of("list"));
        r.push(chars_of("read"));
        r.push(chars_of("clear"));
        r.push(chars_of("cls"));
        r.push(chars_of("exit"));
        r.push(chars_of("quit"));
        assert(views(r@) =~= special_words());
    } else {
        r.push(chars_of("short"));
        r.push(chars_of("long"));
        r.push(chars_of("all"));
        assert(views(r@) =~= memory_words());
    }
    r
}

/// The rest of the first word that `w` is a proper beginning of.
fn rest_of_first_exec(ws: &Vec<Vec<char>>, w: &Vec<char>) -> (r: Option<String>)
    ensures
        match rest_of_first(views(ws@), w@, 0) {
            Some(x) => r matches Some(s) && s@ == x,
            None => r is None,
        },
{
    let ghost wv = views(ws@);
    let mut i: usize = 0;
    while i < ws.len()
        invariant
            i <= ws.len(),
            wv == views(ws@),
            rest_of_first(wv, w@, 0) == rest_of_first(wv, w@, i as int),
        decreases ws.len() - i,
    {
        assert(ws@[i as int]@ == wv[i as int]);
        if starts_with_chars(&ws[i], w) && w.len() < ws[i].len() {
            let rest = slice_chars(&ws[i], w.len(), ws[i].len());
            assert(rest@ =~= wv[i as int].skip(w@.len() as int));
            return Some(string_of(&rest));
        }
        i = i + 1;
    }
    None
}

/// The completions of the words that begin with `prefix`.
fn word_completions_exec(ws: &Vec<Vec<char>>, prefix: &Vec<char>, mark: &str) -> (r: Vec<Candidate>)
    ensures
        r@.map_values(|c: Candidate| (c.display@, c.replacement@)) == word_completions(
            views(ws@),
            prefix@,
            mark@,
            0,
        ),
{
    let ghost wv = views(ws@);
    let mut out: Vec<Candidate> = Vec::new();
    let mut i: usize = 0;
    while i < ws.len()
        invariant
            i <= ws.len(),
            wv == views(ws@),
            word_completions(wv, prefix@, mark@, 0) == out@.map_values(
                |c: Candidate| (c.display@, c.replacement@),
            ) + word_completions(wv, prefix@, mark@, i as int),
        decreases ws.len() - i,
    {
        assert(ws@[i as int]@ == wv[i as int]);
        if starts_with_chars(&ws[i], prefix) {
            let mut d = chars_of(mark);
            crate::text::push_chars(&mut d, &ws[i]);
            let cand = Candidate { display: string_of(&d), replacement: string_of(&ws[i]) };
            let ghost before = out@;
            out.push(cand);
            assert(out@.map_values(|c: Candidate| (c.display@, c.replacement@)) =~= before.map_values(
                |c: Candidate| (c.display@, c.replacement@),
            ).push((cand.display@, cand.replacement@)));
        }
        i = i + 1;
    }
    assert(out@.map_values(|c: Candidate| (c.display@, c.replacement@)) + Seq::empty() =~= out@.map_values(
        |c: Candidate| (c.display@, c.replacement@),
    ));
    out
}

impl PrimeHelper {
    /// The name of the application the helper serves.
    pub closed spec fn name(&self) -> Seq<char> {
        self.app_name@
    }

    /// A helper for the application of the given name.
    pub fn new(app_name: &str) -> (r: Self)
        ensures
            r.name() == app_name@,
    {
        PrimeHelper { app_name: string_of(&chars_of(app_name)) }
    }

    /// The hint for a line with the cursor at byte `pos`: none unless the
    /// cursor is at the end; for a special command, the rest of the command
    /// or of `!memory`'s argument, or what the command expects; `ex` and
    /// `qui` complete to `exit` and `quit`.
    pub fn hint(&self, line: &str, pos: usize) -> (r: Option<String>)
        ensures
            pos < line.len() ==> r is None,
            pos >= line.len() ==> match line_hint(line@) {
                Some(h) => r matches Some(s) && s@ == h,
                None => r is None,
            },
    {
        if pos < line.len() {
            return None;
        }
        let l = chars_of(line);
        let parts = words_of(&l);
        let ghost pv = views(parts@);
        assert(pv == words(line@));
        proof {
            reveal_strlit("!");
            reveal_strlit("!memory");
            reveal_strlit("!read");
            reveal_strlit("ex");
            reveal_strlit("qui");
            reveal_strlit("short");
            reveal_strlit("long");
            reveal_strlit("all");
        }
        if parts.len() == 0 {
            return None;
        }
        assert(parts@[0]@ == pv[0]);
        if parts[0].len() > 0 && parts[0][0] == '!' {
            let first = &parts[0];
            if parts.len() == 1 {
                if first.len() == 1 {
                    assert(first@ =~= "!"@);
                    return Some(string_of(&chars_of(" type command e.g. help, list, exit")));
                }
                assert(first@ != "!"@);
                let cmd = slice_chars(first, 1, first.len());
                assert(cmd@ =~= first@.skip(1));
                return rest_of_first_exec(&word_list(true), &cmd);
            }
            assert(parts@[1]@ == pv[1]);
            if parts.len() == 2 && eq_str(first, "!memory") {
                let arg = &parts[1];
                let ms = word_list(false);
                let mut known = false;
                let mut prefix_of_some = false;
                let mut j: usize = 0;
                while j < 3
                    invariant
                        j <= 3,
                        ms@.len() == 3,
                        views(ms@) == memory_words(),
                        known == (exists|k: int| 0 <= k < j && memory_words()[k] == arg@),
                        prefix_of_some == (exists|k: int|
                            0 <= k < j && starts_with(#[trigger] memory_words()[k], arg@)),
                    decreases 3 - j,
                {
                    assert(ms@[j as int]@ == memory_words()[j as int]);
                    if eq_chars(&ms[j], arg) {
                        known = true;
                    }
                    if starts_with_chars(&ms[j], arg) {
                        prefix_of_some = true;
                    }
                    j = j + 1;
                }
                assert(known == memory_words().contains(arg@));
                if arg.len() == 0 || (!known && !prefix_of_some) {
                    return Some(string_of(&chars_of(" [short|long|all]")));
                }
                return rest_of_first_exec(&ms, arg);
            }
            if parts.len() == 2 && eq_str(first, "!read") {
                let arg = &parts[1];
                if arg.len() == 0 || parse_usize_chars(arg).is_none() {
                    return Some(string_of(&chars_of(" <message_number>")));
                }
                return None;
            }
            return None;
        }
        if eq_str(&l, "ex") {
            return Some(string_of(&chars_of("it")));
        }
        if eq_str(&l, "qui") {
            return Some(string_of(&chars_of("t")));
        }
        None
    }

    /// The completions for a line with the cursor at byte `pos`, and where
    /// they start: for a line that starts with `!`, the special commands
    /// that the typed word begins, or the arguments of `!memory`.
    pub fn complete(&self, line: &str, pos: usize) -> (r: (usize, Vec<Candidate>))
        requires
            cut_ok(line@, pos as nat),
            utf8_len(line@) <= usize::MAX,
        ensures
            r.0 as int == line_completions(line@, bytes_before(line@, pos as nat), pos as int).0,
            r.1@.map_values(|c: Candidate| (c.display@, c.replacement@)) == line_completions(
                line@,
                bytes_before(line@, pos as nat),
                pos as int,
            ).1,
    {
        let l = chars_of(line);
        if !(l.len() > 0 && l[0] == '!') {
            return (0, Vec::new());
        }
        let k = fit_chars_exec(&l, pos);
        let before = slice_chars(&l, 0, k);
        assert(before@ =~= bytes_before(line@, pos as nat));
        let parts = words_of(&before);
        let ghost pv = views(parts@);
        proof {
            reveal_strlit("!");
            reveal_strlit("!memory");
        }
        if parts.len() == 0 || (parts.len() == 1 && eq_str(&parts[0], "!")) {
            let empty: Vec<char> = Vec::new();
            assert(empty@ =~= Seq::<char>::empty());
            return (1, word_completions_exec(&word_list(true), &empty, "!"));
        }
        assert(parts@[0]@ == pv[0]);
        if parts.len() == 1 && parts[0].len() > 0 && parts[0][0] == '!' {
            let prefix = slice_chars(&parts[0], 1, parts[0].len());
            assert(prefix@ =~= pv[0].skip(1));
            return (1, word_completions_exec(&word_list(true), &prefix, "!"));
        }
        if parts.len() == 2 && eq_str(&parts[0], "!memory") {
            assert(parts@[1]@ == pv[1]);
            let arg = &parts[1];
            let start = match rfind_chars(&l, arg) {
                Some(k) => {
                    let head = slice_chars(&l, 0, k);
                    assert(head@ =~= l@.take(k as int));
                    proof {
                        crate::text::lemma_utf8_len_prefix(l@, k as int);
                    }
                    utf8_len_chars(&head)
                },
                None => pos,
            };
            let empty = "";
            proof {
                reveal_strlit("");
            }
            assert(empty@ =~= Seq::<char>::empty());
            return (start, word_completions_exec(&word_list(false), arg, empty));
        }
        (0, Vec::new())
    }

    /// The line as shown while typing: when its first word is a special
    /// command, that word in color and the rest of the line after as many
    /// bytes as the word has, itself in color for `!memory` and `!read`.
    pub fn highlight(&self, line: &str) -> (r: String)
        requires
            starts_command(line@) ==> utf8_len(words(line@)[0]) <= usize::MAX && cut_ok(
                line@,
                utf8_len(words(line@)[0]),
            ),
        ensures
            !starts_command(line@) ==> r@ == line@,
            starts_command(line@) ==> highlighted_line(line@, r@),
    {
        let l = chars_of(line);
        let parts = words_of(&l);
        proof {
            reveal_strlit("!memory");
            reveal_strlit("!read");
        }
        if parts.len() == 0 || !(parts[0].len() > 0 && parts[0][0] == '!') {
            return string_of(&l);
        }
        assert(parts@[0]@ == words(line@)[0]);
        let n = utf8_len_chars(&parts[0]);
        let k = fit_chars_exec(&l, n);
        let rest = slice_chars(&l, k, l.len());
        assert(rest@ =~= bytes_after(line@, n as nat));
        let first = string_of(&parts[0]);
        let word_painted = paint(first.as_str(), Tone::Cyan);
        let mut out = chars_of(word_painted.as_str());
        let ghost head = out@;
        if rest.len() > 0 {
            if eq_str(&parts[0], "!memory") || eq_str(&parts[0], "!read") {
                let rp = paint(string_of(&rest).as_str(), Tone::Green);
                push_str(&mut out, rp.as_str());
                assert(out@.skip(head.len() as int) =~= rp@);
            } else {
                crate::text::push_chars(&mut out, &rest);
                assert(out@.skip(head.len() as int) =~= rest@);
            }
        }
        assert(out@.take(head.len() as int) =~= head);
        string_of(&out)
    }
}

/// Whether the first `n` bytes of a line end between characters.
pub fn cut_ok_exec(line: &str, n: usize) -> (r: bool)
    ensures
        r == cut_ok(line@, n as nat),
{
    let l = chars_of(line);
    let k = fit_chars_exec(&l, n);
    let head = slice_chars(&l, 0, k);
    assert(head@ =~= l@.take(k as int));
    utf8_len_chars(&head) == n
}

/// Whether completions can be asked for at byte `pos` of a line: the line's
/// bytes are countable and `pos` falls between characters.
pub fn complete_ok(line: &str, pos: usize) -> (r: bool)
    ensures
        r == (cut_ok(line@, pos as nat) && utf8_len(line@) <= usize::MAX),
{
    let l = chars_of(line);
    let k = fit_chars_exec(&l, usize::MAX);
    proof {
        lemma_fit_chars_whole(l@, usize::MAX as nat);
    }
    k == l.len() && cut_ok_exec(line, pos)
}

/// Whether a line can be highlighted: when its first word is a special
/// command, the line can be cut after as many bytes as the word has.
pub fn highlight_ok(line: &str) -> (r: bool)
    ensures
        r == (starts_command(line@) ==> utf8_len(words(line@)[0]) <= usize::MAX && cut_ok(
            line@,
            utf8_len(words(line@)[0]),
        )),
{
    let l = chars_of(line);
    let parts = words_of(&l);
    if parts.len() == 0 || !(parts[0].len() > 0 && parts[0][0] == '!') {
        return true;
    }
    assert(parts@[0]@ == words(line@)[0]);
    let k = fit_chars_exec(&parts[0], usize::MAX);
    proof {
        lemma_fit_chars_whole(parts[0]@, usize::MAX as nat);
    }
    if k < parts[0].len() {
        return false;
    }
    assert(parts[0]@.take(k as int) =~= parts[0]@);
    let n = utf8_len_chars(&parts[0]);
    cut_ok_exec(line, n)
}

/// Whether a line's first word is a special command.
pub open spec fn starts_command(line: Seq<char>) -> bool {
    words(line).len() > 0 && words(line)[0].len() > 0 && words(line)[0][0] == '!'
}

/// Whether `r` shows a line whose first word is a special command: the word
/// in color, then the rest after as many bytes as the word has, itself in
/// color for `!memory` and `!read` and as typed otherwise.
pub open spec fn highlighted_line(line: Seq<char>, r: Seq<char>) -> bool {
    let first = words(line)[0];
    let rest = bytes_after(line, utf8_len(first));
    exists|k: int|
        0 <= k <= r.len() && #[trigger] wraps(r.take(k), first) && if rest.len() == 0 {
            k == r.len()
        } else if first == "!memory"@ || first == "!read"@ {
            wraps(r.skip(k), rest)
        } else {
            r.skip(k) == rest
        }
}

} // verus!
