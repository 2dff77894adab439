//! The console's decisions: what a line typed at the prompt asks for, the
//! special `!` commands, and the hints and completions offered while typing.
use vstd::prelude::*;
use vstd::string::StringSliceAdditionalSpecFns;
use crate::processor::{lowercase, to_lower};
use crate::style::{paint, wraps, Tone};
use crate::text::{
    chars_of, contains, contains_str, find, find_chars, occurs_at, push_chars, push_str, slice_chars,
    starts_with, starts_with_chars, string_of, trim, trim_chars,
};

verus! {

/// A character in ASCII lower case.
pub open spec fn ascii_lower(c: char) -> char {
    if 'A' <= c && c <= 'Z' {
        ((c as u32) + 32) as char
    } else {
        c
    }
}

/// Whether two texts are equal when ASCII letters are compared ignoring
/// case (`str::eq_ignore_ascii_case`).
pub open spec fn eq_ignore_ascii_case(a: Seq<char>, b: Seq<char>) -> bool {
    a.len() == b.len() && forall|i: int| 0 <= i < a.len() ==> ascii_lower(#[trigger] a[i]) == ascii_lower(b[i])
}

/// A character in ASCII lower case.
fn ascii_lower_char(c: char) -> (r: char)
    ensures
        r == ascii_lower(c),
{
    if 'A' <= c && c <= 'Z' {
        let u: u32 = (c as u32) + 32;
        let b: u8 = u as u8;
        b as char
    } else {
        c
    }
}

/// Whether the characters equal a text when ASCII letters are compared
/// ignoring case.
pub fn eq_ignore_case(a: &Vec<char>, b: &str) -> (r: bool)
    ensures
        r == eq_ignore_ascii_case(a@, b@),
{
    let bv = chars_of(b);
    if a.len() != bv.len() {
        return false;
    }
    let mut i: usize = 0;
    while i < a.len()
        invariant
            i <= a.len() == bv.len(),
            bv@ == b@,
            forall|j: int| 0 <= j < i ==> ascii_lower(#[trigger] a@[j]) == ascii_lower(bv@[j]),
        decreases a.len() - i,
    {
        if ascii_lower_char(a[i]) != ascii_lower_char(bv[i]) {
            return false;
        }
        i = i + 1;
    }
    true
}

/// What a line typed at the prompt asks for.
#[derive(Debug, PartialEq, Eq, Clone)]
pub enum ReplInput {
    /// A blank line: ask again.
    Empty,
    /// `exit` or `quit`, in any case: leave.
    Quit,
    /// A special command: the text after the `!`.
    Special(String),
    /// A request for the assistant: the trimmed line.
    Request(String),
}

/// What a line typed at the prompt asks for: nothing when blank, to leave on
/// `exit` or `quit` in any case, a special command after `!`, else a request.
pub fn classify_input(line: &str) -> (r: ReplInput)
    ensures
        ({
            let t = trim(line@);
            if t.len() == 0 {
                r == ReplInput::Empty
            } else if eq_ignore_ascii_case(t, "exit"@) || eq_ignore_ascii_case(t, "quit"@) {
                r == ReplInput::Quit
            } else if t[0] == '!' {
                r matches ReplInput::Special(s) && s@ == t.skip(1)
            } else {
                r matches ReplInput::Request(s) && s@ == t
            }
        }),
{
    let t = trim_chars(&chars_of(line));
    if t.len() == 0 {
        ReplInput::Empty
    } else if eq_ignore_case(&t, "exit") || eq_ignore_case(&t, "quit") {
        ReplInput::Quit
    } else if t[0] == '!' {
        let rest = slice_chars(&t, 1, t.len());
        assert(rest@ =~= t@.skip(1));
        ReplInput::Special(string_of(&rest))
    } else {
        ReplInput::Request(string_of(&t))
    }
}

/// A special command typed after `!`.
#[derive(Debug, PartialEq, Eq, Clone)]
pub enum SpecialCommand {
    /// `clear` or `cls`: clear the screen.
    Clear,
    /// `help`: list the special commands.
    Help,
    /// `log`: show the conversation log.
    Log,
    /// `memory`: show a memory, by type ("long_term" or "short_term"), or
    /// both.
    Memory(Option<String>),
    /// `tools`: list the tools.
    Tools,
    /// `exit` or `quit`: leave.
    Exit,
    /// Any other word, in lower case.
    Unknown(String),
}

/// A command line split at its first space: the word before it and the
/// rest after it.
pub open spec fn split_first_space(s: Seq<char>) -> (Seq<char>, Seq<char>) {
    match find(s, " "@) {
        Some(i) => (s.take(i), s.skip(i + 1)),
        None => (s, Seq::empty()),
    }
}

/// The memory that the arguments of `!memory` name.
pub open spec fn memory_choice(args: Seq<char>) -> Option<Seq<char>> {
    if contains(args, "long"@) {
        Some("long_term"@)
    } else if contains(args, "short"@) {
        Some("short_term"@)
    } else {
        None
    }
}

/// Whether a command is the one named, with the memory choice compared
/// by its text.
pub open spec fn special_command_is(r: SpecialCommand, cmd_line: Seq<char>) -> bool {
    let (head, args) = split_first_space(cmd_line);
    let c = lowercase(head);
    if c == "clear"@ || c == "cls"@ {
        r == SpecialCommand::Clear
    } else if c == "help"@ {
        r == SpecialCommand::Help
    } else if c == "log"@ {
        r == SpecialCommand::Log
    } else if c == "memory"@ {
        r matches SpecialCommand::Memory(m) && match m {
            Some(s) => memory_choice(args) == Some(s@),
            None => memory_choice(args) is None,
        }
    } else if c == "tools"@ {
        r == SpecialCommand::Tools
    } else if c == "exit"@ || c == "quit"@ {
        r == SpecialCommand::Exit
    } else {
        r matches SpecialCommand::Unknown(u) && u@ == c
    }
}

/// The special command of the text after `!`: its first word, in lower
/// case, names it; for `memory` the rest chooses the memory.
pub fn parse_special_command(cmd_line: &str) -> (r: SpecialCommand)
    ensures
        special_command_is(r, cmd_line@),
{
    let s = chars_of(cmd_line);
    let sp: Vec<char> = vec![' '];
    assert(sp@ =~= " "@) by {
        reveal_strlit(" ");
    }
    let (head, args) = match find_chars(&s, &sp) {
        Some(i) => {
            assert(occurs_at(s@, sp@, i as int));
            let h = slice_chars(&s, 0, i);
            let a = slice_chars(&s, i + 1, s.len());
            assert(h@ =~= s@.take(i as int));
            assert(a@ =~= s@.skip(i + 1));
            (h, a)
        },
        None => (slice_chars(&s, 0, s.len()), Vec::new()),
    };
    assert(s@.subrange(0, s@.len() as int) =~= s@);
    let c = chars_of(to_lower(string_of(&head).as_str()).as_str());
    if crate::text::eq_str(&c, "clear") || crate::text::eq_str(&c, "cls") {
        SpecialCommand::Clear
    } else if crate::text::eq_str(&c, "help") {
        SpecialCommand::Help
    } else if crate::text::eq_str(&c, "log") {
        SpecialCommand::Log
    } else if crate::text::eq_str(&c, "memory") {
        let m = if contains_str(&args, "long") {
            Some(string_of(&chars_of("long_term")))
        } else if contains_str(&args, "short") {
            Some(string_of(&chars_of("short_term")))
        } else {
            None
        };
        SpecialCommand::Memory(m)
    } else if crate::text::eq_str(&c, "tools") {
        SpecialCommand::Tools
    } else if crate::text::eq_str(&c, "exit") || crate::text::eq_str(&c, "quit") {
        SpecialCommand::Exit
    } else {
        SpecialCommand::Unknown(string_of(&c))
    }
}

/// Whether the console goes on after a special command: all but `exit` and
/// `quit` keep it running.
pub fn keeps_running(cmd: &SpecialCommand) -> (r: bool)
    ensures
        r == !(cmd is Exit),
{
    match cmd {
        SpecialCommand::Exit => false,
        _ => true,
    }
}

// ---------------------------------------------------------------------
// Hints, completions and highlighting
// ---------------------------------------------------------------------

/// A completion offered while typing: what the list shows and what replaces
/// the typed text.
#[derive(Debug, PartialEq, Eq, Clone)]
pub struct Candidate {
    pub display: String,
    pub replacement: String,
}

/// The commands that the console's hints complete, in order.
pub open spec fn hint_commands() -> Seq<Seq<char>> {
    seq![
        "exit"@,
        "quit"@,
        "!help"@,
        "!clear"@,
        "!cls"@,
        "!log"@,
        "!memory"@,
        "!memory long"@,
        "!memory short"@,
        "!tools"@,
    ]
}

/// The rest of the first command, from `i` on, that the line is a proper
/// beginning of.
pub open spec fn first_hint(cmds: Seq<Seq<char>>, line: Seq<char>, i: int) -> Option<Seq<char>>
    decreases cmds.len() - i,
{
    if i < 0 || i >= cmds.len() {
        None
    } else if starts_with(cmds[i], line) && line.len() < cmds[i].len() {
        Some(cmds[i].skip(line.len() as int))
    } else {
        first_hint(cmds, line, i + 1)
    }
}

/// The console's commands, with the words that describe them.
pub open spec fn completion_commands() -> Seq<(Seq<char>, Seq<char>)> {
    seq![
        ("!help"@, "help"@),
        ("!clear"@, "clear"@),
        ("!cls"@, "cls"@),
        ("!log"@, "log"@),
        ("!memory"@, "memory"@),
        ("!memory long"@, "memory long"@),
        ("!memory short"@, "memory short"@),
        ("!tools"@, "tools"@),
        ("!exit"@, "exit"@),
        ("!quit"@, "quit"@),
    ]
}

/// The characters of the first `n` bytes of a text.
pub open spec fn byte_prefix(s: &str, n: int) -> Seq<char> {
    vstd::utf8::decode_utf8(s.spec_bytes().subrange(0, n))
}

/// The completions of the commands, from `i` on, that begin with `prefix`.
pub open spec fn completions_from(
    cmds: Seq<(Seq<char>, Seq<char>)>,
    prefix: Seq<char>,
    i: int,
) -> Seq<(Seq<char>, Seq<char>)>
    decreases cmds.len() - i,
{
    if i < 0 || i >= cmds.len() {
        Seq::empty()
    } else if starts_with(cmds[i].0, prefix) {
        seq![(cmds[i].0 + " ("@ + cmds[i].1 + ")"@, cmds[i].0.skip(1))] + completions_from(
            cmds,
            prefix,
            i + 1,
        )
    } else {
        completions_from(cmds, prefix, i + 1)
    }
}

/// The console's commands and their words, as strings.
fn completion_table() -> (r: Vec<(String, String)>)
    ensures
        r@.map_values(|p: (String, String)| (p.0@, p.1@)) == completion_commands(),
        forall|i: int| 0 <= i < r@.len() ==> (#[trigger] r@[i]).0@.len() > 0,
{
    proof {
        reveal_strlit("!help");
        reveal_strlit("!clear");
        reveal_strlit("!cls");
        reveal_strlit("!log");
        reveal_strlit("!memory");
        reveal_strlit("!memory long");
        reveal_strlit("!memory short");
        reveal_strlit("!tools");
        reveal_strlit("!exit");
        reveal_strlit("!quit");
    }
    let mut r: Vec<(String, String)> = Vec::new();
    r.push((string_of(&chars_of("!help")), string_of(&chars_of("help"))));
    r.push((string_of(&chars_of("!clear")), string_of(&chars_of("clear"))));
    r.push((string_of(&chars_of("!cls")), string_of(&chars_of("cls"))));
    r.push((string_of(&chars_of("!log")), string_of(&chars_of("log"))));
    r.push((string_of(&chars_of("!memory")), string_of(&chars_of("memory"))));
    r.push((string_of(&chars_of("!memory long")), string_of(&chars_of("memory long"))));
    r.push((string_of(&chars_of("!memory short")), string_of(&chars_of("memory short"))));
    r.push((string_of(&chars_of("!tools")), string_of(&chars_of("tools"))));
    r.push((string_of(&chars_of("!exit")), string_of(&chars_of("exit"))));
    r.push((string_of(&chars_of("!quit")), string_of(&chars_of("quit"))));
    assert(r@.map_values(|p: (String, String)| (p.0@, p.1@)) =~= completion_commands());
    r
}

/// Whether `r` shows a special command `cmd` (the text after `!`): the `!`,
/// the command's word with color around it, and the rest as typed.
pub open spec fn highlighted(cmd: Seq<char>, r: Seq<char>) -> bool {
    let rest = match find(cmd, " "@) {
        Some(i) => cmd.skip(i),
        None => Seq::empty(),
    };
    let word = match find(cmd, " "@) {
        Some(i) => cmd.take(i),
        None => cmd,
    };
    &&& r.len() >= 1 + rest.len()
    &&& r[0] == '!'
    &&& r.skip(r.len() - rest.len()) == rest
    &&& wraps(r.subrange(1, r.len() - rest.len()), word)
}

/// The console's helper for the line editor.
#[derive(Debug, Clone, Copy)]
pub struct PrimeHelper {}

impl PrimeHelper {
    /// The hint for a line with the cursor at byte `pos`: when the cursor is
    /// at the end, the rest of the first command that the line properly
    /// begins.
    pub fn hint(&self, line: &str, pos: usize) -> (r: Option<String>)
        ensures
            pos < line.len() ==> r is None,
            pos >= line.len() ==> match first_hint(hint_commands(), line@, 0) {
                Some(h) => r matches Some(s) && s@ == h,
                None => r is None,
            },
    {
        if pos < line.len() {
            return None;
        }
        let l = chars_of(line);
        let mut cmds: Vec<Vec<char>> = Vec::new();
        cmds.push(chars_of("exit"));
        cmds.push(chars_of("quit"));
        cmds.push(chars_of("!help"));
        cmds.push(chars_of("!clear"));
        cmds.push(chars_of("!cls"));
        cmds.push(chars_of("!log"));
        cmds.push(chars_of("!memory"));
        cmds.push(chars_of("!memory long"));
        cmds.push(chars_of("!memory short"));
        cmds.push(chars_of("!tools"));
        assert(crate::text::views(cmds@) =~= hint_commands());
        let ghost cv = hint_commands();
        let mut i: usize = 0;
        while i < cmds.len()
            invariant
                i <= cmds.len(),
                crate::text::views(cmds@) == cv,
                cv == hint_commands(),
                l@ == line@,
                pos >= line.len(),
                first_hint(cv, l@, 0) == first_hint(cv, l@, i as int),
            decreases cmds.len() - i,
        {
            let c = &cmds[i];
            assert(c@ == cv[i as int]);
            if starts_with_chars(c, &l) && l.len() < c.len() {
                let rest = slice_chars(c, l.len(), c.len());
                assert(rest@ =~= c@.skip(l@.len() as int));
                return Some(string_of(&rest));
            }
            i = i + 1;
        }
        None
    }

    /// The completions for a line with the cursor at byte `pos`, and where
    /// they start: for a line that starts with `!`, each command that
    /// begins with the text before the cursor, from the cursor on.
    pub fn complete(&self, line: &str, pos: usize) -> (r: (usize, Vec<Candidate>))
        requires
            line@.len() > 0 && line@[0] == '!' ==> vstd::utf8::is_char_boundary(
                line.spec_bytes(),
                pos as int,
            ),
        ensures
            line@.len() > 0 && line@[0] == '!' ==> r.0 == pos && r.1@.map_values(
                |c: Candidate| (c.display@, c.replacement@),
            ) == completions_from(completion_commands(), byte_prefix(line, pos as int), 0),
            !(line@.len() > 0 && line@[0] == '!') ==> r.0 == 0 && r.1@.len() == 0,
    {
        let l = chars_of(line);
        if l.len() > 0 && l[0] == '!' {
            let (before, _) = line.split_at(pos);
            proof {
                vstd::utf8::encode_utf8_decode_utf8(before@);
            }
            assert(before@ == byte_prefix(line, pos as int));
            let prefix = chars_of(before);
            let table = completion_table();
            let ghost tv = completion_commands();
            let mut out: Vec<Candidate> = Vec::new();
            let mut i: usize = 0;
            while i < table.len()
                invariant
                    i <= table.len(),
                    table@.map_values(|p: (String, String)| (p.0@, p.1@)) == tv,
                    forall|j: int| 0 <= j < table@.len() ==> (#[trigger] table@[j]).0@.len() > 0,
                    tv == completion_commands(),
                    completions_from(tv, prefix@, 0) == out@.map_values(
                        |c: Candidate| (c.display@, c.replacement@),
                    ) + completions_from(tv, prefix@, i as int),
                decreases table.len() - i,
            {
                let cmd = chars_of(table[i].0.as_str());
                assert(cmd@ == tv[i as int].0);
                if starts_with_chars(&cmd, &prefix) {
                    let mut d = slice_chars(&cmd, 0, cmd.len());
                    push_str(&mut d, " (");
                    push_str(&mut d, table[i].1.as_str());
                    push_str(&mut d, ")");
                    assert(cmd@.len() > 0);
                    let rep = slice_chars(&cmd, 1, cmd.len());
                    assert(rep@ =~= cmd@.skip(1));
                    assert(d@ =~= tv[i as int].0 + " ("@ + tv[i as int].1 + ")"@);
                    let cand = Candidate { display: string_of(&d), replacement: string_of(&rep) };
                    let ghost before_out = out@;
                    out.push(cand);
                    assert(out@.map_values(|c: Candidate| (c.display@, c.replacement@)) =~= before_out.map_values(
                        |c: Candidate| (c.display@, c.replacement@),
                    ).push((cand.display@, cand.replacement@)));
                }
                i = i + 1;
            }
            assert(out@.map_values(|c: Candidate| (c.display@, c.replacement@)) + Seq::empty()
                =~= out@.map_values(|c: Candidate| (c.display@, c.replacement@)));
            (pos, out)
        } else {
            (0, Vec::new())
        }
    }

    /// The line as shown while typing: a special command's word in color,
    /// the rest as typed.
    pub fn highlight(&self, line: &str) -> (r: String)
        ensures
            !(line@.len() > 0 && line@[0] == '!') ==> r@ == line@,
            line@.len() > 0 && line@[0] == '!' ==> highlighted(line@.skip(1), r@),
    {
        let l = chars_of(line);
        proof {
            reveal_strlit("!");
        }
        if l.len() > 0 && l[0] == '!' {
            let cmd = slice_chars(&l, 1, l.len());
            assert(cmd@ =~= line@.skip(1));
            let sp: Vec<char> = vec![' '];
            assert(sp@ =~= " "@) by {
                reveal_strlit(" ");
            }
            let mut out = chars_of("!");
            match find_chars(&cmd, &sp) {
                Some(i) => {
                    let word = slice_chars(&cmd, 0, i);
                    let rest = slice_chars(&cmd, i, cmd.len());
                    assert(word@ =~= cmd@.take(i as int));
                    assert(rest@ =~= cmd@.skip(i as int));
                    let p = paint(string_of(&word).as_str(), Tone::Cyan);
                    push_str(&mut out, p.as_str());
                    push_chars(&mut out, &rest);
                    assert(wraps(p@, cmd@.take(i as int)));
                    assert(out@ =~= "!"@ + p@ + cmd@.skip(i as int));
                    assert(find(cmd@, " "@) == Some(i as int));
                    assert(out@.skip(out@.len() - rest@.len()) =~= rest@);
                    assert(out@.subrange(1, out@.len() - rest@.len()) =~= p@);
                    assert(highlighted(cmd@, out@));
                },
                None => {
                    let p = paint(string_of(&cmd).as_str(), Tone::Cyan);
                    push_str(&mut out, p.as_str());
                    assert(wraps(p@, cmd@));
                    assert(out@ =~= "!"@ + p@);
                    assert(out@.skip(out@.len() as int) =~= Seq::<char>::empty());
                    assert(out@.subrange(1, out@.len() as int) =~= p@);
                    assert(highlighted(cmd@, out@));
                },
            }
            string_of(&out)
        } else {
            string_of(&l)
        }
    }
}

} // verus!
