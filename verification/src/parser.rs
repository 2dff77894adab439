//! Parsing of model responses: the plain-text part and the tool calls of
//! `primeactions` blocks.
use vstd::prelude::*;
use crate::text::{
    chars_of, ends_with, ends_with_chars, eq_chars, eq_str, is_ascii_whitespace, is_ascii_ws, join,
    join_chars, lemma_next_char_bounds, lemma_next_char_at, lemma_trim_fixed, lines_from, lemma_string_views_push, lemma_views_push, lines, lines_of,
    next_char, next_char_at, parse_usize, parse_usize_chars, push_chars, push_str, rfind,
    rfind_chars, slice_chars, starts_with, starts_with_chars, string_of, string_views, trim,
    trim_chars, views, words, words_of, copy_chars, is_ws, trim_start, trim_end, decimal, occurs_at,
};

verus! {

/// One requested action.
#[derive(Debug, PartialEq, Clone)]
pub enum ToolCall {
    Shell { command: String },
    ReadFile { path: String, lines: Option<(usize, usize)> },
    WriteFile { path: String, content: String, append: bool },
    ListDir { path: String },
    ChangeDir { path: String },
    WriteMemory { memory_type: String, content: String },
    ClearMemory { memory_type: String },
    ScriptTool { name: String, args: Vec<String> },
    CreateTool { name: String, desc: String, args: String, script_content: String },
}

/// A tool call with its text as character sequences.
pub enum ToolCallView {
    Shell { command: Seq<char> },
    ReadFile { path: Seq<char>, lines: Option<(usize, usize)> },
    WriteFile { path: Seq<char>, content: Seq<char>, append: bool },
    ListDir { path: Seq<char> },
    ChangeDir { path: Seq<char> },
    WriteMemory { memory_type: Seq<char>, content: Seq<char> },
    ClearMemory { memory_type: Seq<char> },
    ScriptTool { name: Seq<char>, args: Seq<Seq<char>> },
    CreateTool { name: Seq<char>, desc: Seq<char>, args: Seq<char>, script_content: Seq<char> },
}

impl View for ToolCall {
    type V = ToolCallView;

    open spec fn view(&self) -> ToolCallView {
        match self {
            ToolCall::Shell { command } => ToolCallView::Shell { command: command@ },
            ToolCall::ReadFile { path, lines } => ToolCallView::ReadFile { path: path@, lines: *lines },
            ToolCall::WriteFile { path, content, append } => ToolCallView::WriteFile {
                path: path@,
                content: content@,
                append: *append,
            },
            ToolCall::ListDir { path } => ToolCallView::ListDir { path: path@ },
            ToolCall::ChangeDir { path } => ToolCallView::ChangeDir { path: path@ },
            ToolCall::WriteMemory { memory_type, content } => ToolCallView::WriteMemory {
                memory_type: memory_type@,
                content: content@,
            },
            ToolCall::ClearMemory { memory_type } => ToolCallView::ClearMemory {
                memory_type: memory_type@,
            },
            ToolCall::ScriptTool { name, args } => ToolCallView::ScriptTool {
                name: name@,
                args: string_views(args@),
            },
            ToolCall::CreateTool { name, desc, args, script_content } => ToolCallView::CreateTool {
                name: name@,
                desc: desc@,
                args: args@,
                script_content: script_content@,
            },
        }
    }
}

/// Why a response could not be parsed.
#[derive(Debug, PartialEq, Clone)]
pub enum ParseError {
    /// The start of a `lines=START-END` range is not a number; holds the text.
    InvalidStartLine(String),
    /// The end of a `lines=START-END` range is not a number; holds the text.
    InvalidEndLine(String),
    /// A `lines=` range is not of the form `START-END`.
    InvalidLinesFormat,
    /// A `create_tool` line lacks a name, a description or an argument list.
    InvalidCreateToolArgs,
}

/// A parse error with its text as character sequences.
pub enum ParseErrorView {
    InvalidStartLine(Seq<char>),
    InvalidEndLine(Seq<char>),
    InvalidLinesFormat,
    InvalidCreateToolArgs,
}

impl View for ParseError {
    type V = ParseErrorView;

    open spec fn view(&self) -> ParseErrorView {
        match self {
            ParseError::InvalidStartLine(s) => ParseErrorView::InvalidStartLine(s@),
            ParseError::InvalidEndLine(s) => ParseErrorView::InvalidEndLine(s@),
            ParseError::InvalidLinesFormat => ParseErrorView::InvalidLinesFormat,
            ParseError::InvalidCreateToolArgs => ParseErrorView::InvalidCreateToolArgs,
        }
    }
}

impl ParseError {
    /// The message that describes the error.
    pub fn message(&self) -> (r: String)
        ensures
            r@ == parse_error_message(self@),
    {
        let mut out: Vec<char> = Vec::new();
        match self {
            ParseError::InvalidStartLine(s) => {
                push_str(&mut out, "Invalid start line number: ");
                push_str(&mut out, s.as_str());
            },
            ParseError::InvalidEndLine(s) => {
                push_str(&mut out, "Invalid end line number: ");
                push_str(&mut out, s.as_str());
            },
            ParseError::InvalidLinesFormat => {
                push_str(&mut out, "Invalid lines format. Expected start-end");
            },
            ParseError::InvalidCreateToolArgs => {
                push_str(&mut out, "Invalid create_tool args: missing name, desc, or args");
            },
        }
        string_of(&out)
    }
}

/// The message of a parse error.
pub open spec fn parse_error_message(e: ParseErrorView) -> Seq<char> {
    match e {
        ParseErrorView::InvalidStartLine(s) => "Invalid start line number: "@ + s,
        ParseErrorView::InvalidEndLine(s) => "Invalid end line number: "@ + s,
        ParseErrorView::InvalidLinesFormat => "Invalid lines format. Expected start-end"@,
        ParseErrorView::InvalidCreateToolArgs =>
            "Invalid create_tool args: missing name, desc, or args"@,
    }
}

/// The result of parsing a response.
#[derive(Debug, Default)]
pub struct ParsedResponse {
    pub natural_language: String,
    pub tool_calls: Vec<ToolCall>,
}

// ---------------------------------------------------------------------
// Specification
// ---------------------------------------------------------------------

/// The views of a sequence of tool calls.
pub open spec fn call_views(v: Seq<ToolCall>) -> Seq<ToolCallView> {
    v.map_values(|c: ToolCall| c@)
}

/// The line that opens an action block.
pub open spec fn block_open() -> Seq<char> {
    "```primeactions"@
}

/// A code fence.
pub open spec fn fence() -> Seq<char> {
    seq!['`', '`', '`']
}

/// The line that ends multi-line content.
pub open spec fn eof_marker() -> Seq<char> {
    "EOF_PRIME"@
}

/// After the first `k` lines: whether a block is open, the plain text so
/// far (each line followed by a line break), and the block lines so far.
pub open spec fn block_state(ls: Seq<Seq<char>>, k: nat) -> (bool, Seq<char>, Seq<Seq<char>>)
    decreases k,
{
    if k == 0 || k > ls.len() {
        (false, Seq::empty(), Seq::empty())
    } else {
        let prev = block_state(ls, (k - 1) as nat);
        let line = ls[k - 1];
        let t = trim(line);
        if !prev.0 {
            if starts_with(t, block_open()) {
                (true, prev.1, prev.2)
            } else {
                (false, prev.1 + line + seq!['\n'], prev.2)
            }
        } else {
            if starts_with(t, fence()) {
                (false, prev.1, prev.2)
            } else {
                (true, prev.1, prev.2.push(line))
            }
        }
    }
}

/// The plain text of a response (trimmed) and the lines inside its action
/// blocks: a line whose trimmed text starts with "```primeactions" opens a
/// block, the next line whose trimmed text starts with "```" closes it.
pub open spec fn split_block(input: Seq<char>) -> (Seq<char>, Seq<Seq<char>>) {
    let ls = lines(input);
    let st = block_state(ls, ls.len());
    (trim(st.1), st.2)
}

/// The arguments of `write_file`: the path, and whether the line ends with
/// " append=true" (which is then not part of the path).
pub open spec fn write_args(a: Seq<char>) -> (Seq<char>, bool) {
    if ends_with(a, " append=true"@) {
        (trim(a.take(a.len() - " append=true"@.len())), true)
    } else {
        (trim(a), false)
    }
}

/// The arguments of `read_file`: a path, then optionally " lines=START-END"
/// (the last occurrence of " lines=").
pub open spec fn read_args(a: Seq<char>) -> Result<(Seq<char>, Option<(usize, usize)>), ParseErrorView> {
    match rfind(a, " lines="@) {
        None => Ok((trim(a), None)),
        Some(pos) => {
            let path = trim(a.take(pos));
            let r = trim(a.skip(pos + " lines="@.len()));
            let d = next_char(r, '-', 0);
            if d < r.len() && next_char(r, '-', d + 1) == r.len() {
                let p0 = r.take(d);
                let p1 = r.skip(d + 1);
                match parse_usize(p0) {
                    None => Err(ParseErrorView::InvalidStartLine(p0)),
                    Some(start) => match parse_usize(p1) {
                        None => Err(ParseErrorView::InvalidEndLine(p1)),
                        Some(end) => Ok((path, Some((start, end)))),
                    },
                }
            } else {
                Err(ParseErrorView::InvalidLinesFormat)
            }
        },
    }
}

/// The first index at or after `i` whose character is not ASCII whitespace.
pub open spec fn skip_ascii_ws(s: Seq<char>, i: int) -> int
    decreases s.len() - i,
{
    if i >= s.len() {
        s.len() as int
    } else if is_ascii_ws(s[i]) {
        skip_ascii_ws(s, i + 1)
    } else {
        i
    }
}

/// The first index at or after `i` whose character is ASCII whitespace, or
/// the length.
pub open spec fn next_ascii_ws(s: Seq<char>, i: int) -> int
    decreases s.len() - i,
{
    if i >= s.len() {
        s.len() as int
    } else if is_ascii_ws(s[i]) {
        i
    } else {
        next_ascii_ws(s, i + 1)
    }
}

/// Scans `key=value` pairs from index `i` on, with the values of the keys
/// `name`, `desc` and `args` found so far; a later value replaces an earlier.
/// A value in double quotes runs to the closing quote; a value without
/// quotes runs to the next whitespace.
pub open spec fn scan_pairs(s: Seq<char>, i: int, name: Seq<char>, desc: Seq<char>, args: Seq<char>) -> (
    Seq<char>,
    Seq<char>,
    Seq<char>,
)
    decreases s.len() + 1 - i,
{
    let p = skip_ascii_ws(s, i);
    if i < 0 || p >= s.len() {
        (name, desc, args)
    } else {
        let k = next_char(s, '=', p + 1);
        if k >= s.len() {
            (name, desc, args)
        } else {
            let key = trim(s.subrange(p, k));
            let q = skip_ascii_ws(s, k + 1);
            if q >= s.len() {
                (name, desc, args)
            } else if s[q] != '"' {
                let e = next_ascii_ws(s, q);
                let value = s.subrange(q, e);
                proof {
                    lemma_skip_ascii_ws_bounds(s, i);
                    lemma_next_char_bounds(s, '=', p + 1);
                    lemma_skip_ascii_ws_bounds(s, k + 1);
                    lemma_next_ascii_ws_bounds(s, q);
                }
                if key == "name"@ {
                    scan_pairs(s, e, value, desc, args)
                } else if key == "desc"@ {
                    scan_pairs(s, e, name, value, args)
                } else if key == "args"@ {
                    scan_pairs(s, e, name, desc, value)
                } else {
                    scan_pairs(s, e, name, desc, args)
                }
            } else {
                let e = next_char(s, '"', q + 1);
                let value = s.subrange(q + 1, e);
                proof {
                    lemma_skip_ascii_ws_bounds(s, i);
                    lemma_next_char_bounds(s, '=', p + 1);
                    lemma_skip_ascii_ws_bounds(s, k + 1);
                    lemma_next_char_bounds(s, '"', q + 1);
                }
                if key == "name"@ {
                    scan_pairs(s, e + 1, value, desc, args)
                } else if key == "desc"@ {
                    scan_pairs(s, e + 1, name, value, args)
                } else if key == "args"@ {
                    scan_pairs(s, e + 1, name, desc, value)
                } else {
                    scan_pairs(s, e + 1, name, desc, args)
                }
            }
        }
    }
}

/// The `name`, `desc` and `args` values of a `key=value` list.
pub open spec fn key_values(s: Seq<char>) -> (Seq<char>, Seq<char>, Seq<char>) {
    scan_pairs(s, 0, Seq::empty(), Seq::empty(), Seq::empty())
}

/// The index of the first line at or after `j` whose trimmed text is
/// "EOF_PRIME", or the number of lines.
pub open spec fn eof_index(bl: Seq<Seq<char>>, j: int) -> int
    decreases bl.len() - j,
{
    if j >= bl.len() {
        bl.len() as int
    } else if trim(bl[j]) == eof_marker() {
        j
    } else {
        eof_index(bl, j + 1)
    }
}

/// The content that follows a tool line at index `i`: the lines up to the
/// "EOF_PRIME" line, joined with line breaks.
pub open spec fn content_after(bl: Seq<Seq<char>>, i: int) -> Seq<char> {
    join(bl.subrange(i + 1, eof_index(bl, i + 1)), seq!['\n'])
}

/// Puts `c` in front of the calls of a parse result.
pub open spec fn prepend(
    c: ToolCallView,
    r: Result<Seq<ToolCallView>, ParseErrorView>,
) -> Result<Seq<ToolCallView>, ParseErrorView> {
    match r {
        Ok(v) => Ok(seq![c] + v),
        Err(e) => Err(e),
    }
}

/// The tool calls of the block lines from index `i` on. Each non-empty line
/// of the form `tool: arguments` gives one call; `write_memory`,
/// `write_file` and `create_tool` take the lines that follow, up to
/// "EOF_PRIME", as their content. The first error ends the parse.
pub open spec fn calls_from(bl: Seq<Seq<char>>, i: int) -> Result<Seq<ToolCallView>, ParseErrorView>
    decreases bl.len() + 1 - i,
{
    if i < 0 || i >= bl.len() {
        Ok(Seq::empty())
    } else {
        let t = trim(bl[i]);
        let c = next_char(t, ':', 0);
        if t.len() == 0 || c >= t.len() {
            calls_from(bl, i + 1)
        } else {
            let tool = trim(t.take(c));
            let args = trim(t.skip(c + 1));
            let e = eof_index(bl, i + 1);
            proof {
                lemma_eof_index_bounds(bl, i + 1);
            }
            if tool == "shell"@ {
                prepend(ToolCallView::Shell { command: args }, calls_from(bl, i + 1))
            } else if tool == "list_dir"@ {
                prepend(ToolCallView::ListDir { path: args }, calls_from(bl, i + 1))
            } else if tool == "cd"@ || tool == "change_dir"@ {
                prepend(ToolCallView::ChangeDir { path: args }, calls_from(bl, i + 1))
            } else if tool == "read_file"@ {
                match read_args(args) {
                    Err(err) => Err(err),
                    Ok(pl) => prepend(
                        ToolCallView::ReadFile { path: pl.0, lines: pl.1 },
                        calls_from(bl, i + 1),
                    ),
                }
            } else if tool == "write_memory"@ {
                prepend(
                    ToolCallView::WriteMemory {
                        memory_type: args.take(next_char(args, ' ', 0)),
                        content: content_after(bl, i),
                    },
                    calls_from(bl, e + 1),
                )
            } else if tool == "clear_memory"@ {
                prepend(ToolCallView::ClearMemory { memory_type: args }, calls_from(bl, i + 1))
            } else if tool == "write_file"@ {
                prepend(
                    ToolCallView::WriteFile {
                        path: write_args(args).0,
                        content: content_after(bl, i),
                        append: write_args(args).1,
                    },
                    calls_from(bl, e + 1),
                )
            } else if tool == "create_tool"@ {
                let kv = key_values(args);
                if kv.0.len() == 0 || kv.1.len() == 0 || kv.2.len() == 0 {
                    Err(ParseErrorView::InvalidCreateToolArgs)
                } else {
                    prepend(
                        ToolCallView::CreateTool {
                            name: kv.0,
                            desc: kv.1,
                            args: kv.2,
                            script_content: content_after(bl, i),
                        },
                        calls_from(bl, e + 1),
                    )
                }
            } else {
                prepend(ToolCallView::ScriptTool { name: tool, args: words(args) }, calls_from(bl, i + 1))
            }
        }
    }
}

/// The parse of a whole response: its plain text and the calls of its
/// action blocks.
pub open spec fn parse_response(input: Seq<char>) -> Result<(Seq<char>, Seq<ToolCallView>), ParseErrorView> {
    let sb = split_block(input);
    match calls_from(sb.1, 0) {
        Ok(calls) => Ok((sb.0, calls)),
        Err(e) => Err(e),
    }
}

/// Skipping ASCII whitespace stays within the text and moves forward.
pub proof fn lemma_skip_ascii_ws_bounds(s: Seq<char>, i: int)
    requires
        0 <= i,
    ensures
        i <= s.len() ==> i <= skip_ascii_ws(s, i) <= s.len(),
        i > s.len() ==> skip_ascii_ws(s, i) == s.len(),
        skip_ascii_ws(s, i) < s.len() ==> !is_ascii_ws(s[skip_ascii_ws(s, i)]),
    decreases s.len() - i,
{
    if i < s.len() && is_ascii_ws(s[i]) {
        lemma_skip_ascii_ws_bounds(s, i + 1);
    }
}

/// The next whitespace lies within the text, past a character that is not
/// whitespace.
pub proof fn lemma_next_ascii_ws_bounds(s: Seq<char>, i: int)
    requires
        0 <= i <= s.len(),
    ensures
        i <= next_ascii_ws(s, i) <= s.len(),
        i < s.len() && !is_ascii_ws(s[i]) ==> i < next_ascii_ws(s, i),
        next_ascii_ws(s, i) < s.len() ==> is_ascii_ws(s[next_ascii_ws(s, i)]),
        forall|k: int| i <= k < next_ascii_ws(s, i) ==> !is_ascii_ws(s[k]),
    decreases s.len() - i,
{
    if i < s.len() && !is_ascii_ws(s[i]) {
        lemma_next_ascii_ws_bounds(s, i + 1);
    }
}

/// The end-marker index lies between the start and the number of lines.
pub proof fn lemma_eof_index_bounds(bl: Seq<Seq<char>>, j: int)
    requires
        0 <= j,
    ensures
        j <= bl.len() ==> j <= eof_index(bl, j) <= bl.len(),
        j > bl.len() ==> eof_index(bl, j) == bl.len(),
    decreases bl.len() - j,
{
    if j < bl.len() && trim(bl[j]) != eof_marker() {
        lemma_eof_index_bounds(bl, j + 1);
    }
}

// ---------------------------------------------------------------------
// Implementation
// ---------------------------------------------------------------------

/// A parse result with the calls `pre` in front of its calls.
pub open spec fn prefix_with(
    pre: Seq<ToolCallView>,
    r: Result<Seq<ToolCallView>, ParseErrorView>,
) -> Result<Seq<ToolCallView>, ParseErrorView> {
    match r {
        Ok(v) => Ok(pre + v),
        Err(e) => Err(e),
    }
}

proof fn lemma_prefix_with_prepend(
    pre: Seq<ToolCallView>,
    c: ToolCallView,
    r: Result<Seq<ToolCallView>, ParseErrorView>,
)
    ensures
        prefix_with(pre, prepend(c, r)) == prefix_with(pre.push(c), r),
{
    match r {
        Ok(v) => {
            assert(pre + (seq![c] + v) =~= pre.push(c) + v);
        },
        Err(e) => {},
    }
}

proof fn lemma_call_views_push(v: Seq<ToolCall>, c: ToolCall)
    ensures
        call_views(v.push(c)) == call_views(v).push(c@),
{
    assert(call_views(v.push(c)) =~= call_views(v).push(c@));
}

/// The plain text of a response and the lines inside its action blocks.
fn find_primeactions_block(input: &Vec<char>) -> (r: (Vec<char>, Vec<Vec<char>>))
    ensures
        r.0@ == split_block(input@).0,
        views(r.1@) == split_block(input@).1,
{
    let ls = lines_of(input);
    let ghost lsv = views(ls@);
    let open_marker = chars_of("```primeactions");
    let fence_marker: Vec<char> = vec!['`', '`', '`'];
    assert(fence_marker@ =~= fence());
    let mut natural: Vec<char> = Vec::new();
    let mut block: Vec<Vec<char>> = Vec::new();
    let mut in_block = false;
    let mut i: usize = 0;
    assert(views(block@) =~= Seq::<Seq<char>>::empty());
    while i < ls.len()
        invariant
            i <= ls.len(),
            lsv == views(ls@),
            lsv == lines(input@),
            open_marker@ == block_open(),
            fence_marker@ == fence(),
            (in_block, natural@, views(block@)) == block_state(lsv, i as nat),
        decreases ls.len() - i,
    {
        let t = trim_chars(&ls[i]);
        assert(ls@[i as int]@ == lsv[i as int]);
        if !in_block {
            if starts_with_chars(&t, &open_marker) {
                in_block = true;
            } else {
                push_chars(&mut natural, &ls[i]);
                natural.push('\n');
            }
        } else {
            if starts_with_chars(&t, &fence_marker) {
                in_block = false;
            } else {
                let line = copy_chars(&ls[i]);
                proof {
                    lemma_views_push(block@, line);
                }
                block.push(line);
            }
        }
        i = i + 1;
    }
    (trim_chars(&natural), block)
}

/// The path of a `write_file` line and whether it asks to append.
fn parse_write_args(args: &Vec<char>) -> (r: (Vec<char>, bool))
    ensures
        r.0@ == write_args(args@).0,
        r.1 == write_args(args@).1,
{
    let suffix = chars_of(" append=true");
    if ends_with_chars(args, &suffix) {
        let path = slice_chars(args, 0, args.len() - suffix.len());
        assert(path@ =~= args@.take(args@.len() - suffix@.len()));
        (trim_chars(&path), true)
    } else {
        (trim_chars(args), false)
    }
}

/// The path of a `read_file` line and its optional line range.
fn parse_read_args(args: &Vec<char>) -> (r: Result<(Vec<char>, Option<(usize, usize)>), ParseError>)
    ensures
        match (r, read_args(args@)) {
            (Ok(x), Ok(y)) => x.0@ == y.0 && x.1 == y.1,
            (Err(e), Err(f)) => e@ == f,
            _ => false,
        },
{
    let marker = chars_of(" lines=");
    match rfind_chars(args, &marker) {
        None => Ok((trim_chars(args), None)),
        Some(pos) => {
            assert(pos + marker@.len() <= args@.len());
            let head = slice_chars(args, 0, pos);
            assert(head@ =~= args@.take(pos as int));
            let path = trim_chars(&head);
            let ml = marker.len();
            assert(ml == marker@.len());
            assert(pos + ml <= args.len());
            let tail = slice_chars(args, pos + ml, args.len());
            assert(tail@ =~= args@.skip(pos + " lines="@.len()));
            let range = trim_chars(&tail);
            let d = next_char_at(&range, '-', 0);
            if d < range.len() && next_char_at(&range, '-', d + 1) == range.len() {
                let p0 = slice_chars(&range, 0, d);
                let p1 = slice_chars(&range, d + 1, range.len());
                assert(p0@ =~= range@.take(d as int));
                assert(p1@ =~= range@.skip(d + 1));
                match parse_usize_chars(&p0) {
                    None => Err(ParseError::InvalidStartLine(string_of(&p0))),
                    Some(start) => match parse_usize_chars(&p1) {
                        None => Err(ParseError::InvalidEndLine(string_of(&p1))),
                        Some(end) => Ok((path, Some((start, end)))),
                    },
                }
            } else {
                Err(ParseError::InvalidLinesFormat)
            }
        },
    }
}

/// The first index at or after `i` whose character is not ASCII whitespace.
fn skip_ascii_ws_at(s: &Vec<char>, i: usize) -> (r: usize)
    requires
        i <= s.len(),
    ensures
        r as int == skip_ascii_ws(s@, i as int),
        i <= r <= s.len(),
{
    let mut k = i;
    while k < s.len() && is_ascii_whitespace(s[k])
        invariant
            i <= k <= s.len(),
            skip_ascii_ws(s@, i as int) == skip_ascii_ws(s@, k as int),
        decreases s.len() - k,
    {
        k = k + 1;
    }
    k
}

/// The first index at or after `i` whose character is ASCII whitespace.
fn next_ascii_ws_at(s: &Vec<char>, i: usize) -> (r: usize)
    requires
        i <= s.len(),
    ensures
        r as int == next_ascii_ws(s@, i as int),
        i <= r <= s.len(),
{
    let mut k = i;
    while k < s.len() && !is_ascii_whitespace(s[k])
        invariant
            i <= k <= s.len(),
            next_ascii_ws(s@, i as int) == next_ascii_ws(s@, k as int),
        decreases s.len() - k,
    {
        k = k + 1;
    }
    k
}

/// The `name`, `desc` and `args` values of a `key=value` list.
pub fn scan_key_values(s: &Vec<char>) -> (r: (Vec<char>, Vec<char>, Vec<char>))
    ensures
        (r.0@, r.1@, r.2@) == key_values(s@),
{
    let mut name: Vec<char> = Vec::new();
    let mut desc: Vec<char> = Vec::new();
    let mut args: Vec<char> = Vec::new();
    let mut i: usize = 0;
    let key_name = chars_of("name");
    let key_desc = chars_of("desc");
    let key_args = chars_of("args");
    while i < s.len()
        invariant
            i <= s.len(),
            key_name@ == "name"@,
            key_desc@ == "desc"@,
            key_args@ == "args"@,
            key_values(s@) == scan_pairs(s@, i as int, name@, desc@, args@),
        decreases s.len() - i,
    {
        let p = skip_ascii_ws_at(s, i);
        if p >= s.len() {
            return (name, desc, args);
        }
        let k = next_char_at(s, '=', p + 1);
        if k >= s.len() {
            return (name, desc, args);
        }
        let key_raw = slice_chars(s, p, k);
        let key = trim_chars(&key_raw);
        let q = skip_ascii_ws_at(s, k + 1);
        if q >= s.len() {
            return (name, desc, args);
        }
        if s[q] != '"' {
            let e = next_ascii_ws_at(s, q);
            proof {
                lemma_next_ascii_ws_bounds(s@, q as int);
            }
            let value = slice_chars(s, q, e);
            if eq_chars(&key, &key_name) {
                name = value;
            } else if eq_chars(&key, &key_desc) {
                desc = value;
            } else if eq_chars(&key, &key_args) {
                args = value;
            }
            assert(key_values(s@) == scan_pairs(s@, e as int, name@, desc@, args@));
            i = e;
        } else {
            let e = next_char_at(s, '"', q + 1);
            let value = slice_chars(s, q + 1, e);
            if eq_chars(&key, &key_name) {
                name = value;
            } else if eq_chars(&key, &key_desc) {
                desc = value;
            } else if eq_chars(&key, &key_args) {
                args = value;
            }
            assert(key_values(s@) == scan_pairs(s@, e + 1, name@, desc@, args@));
            if e >= s.len() {
                proof {
                    lemma_skip_ascii_ws_bounds(s@, e + 1);
                }
                return (name, desc, args);
            }
            i = e + 1;
        }
    }
    (name, desc, args)
}

/// The `name`, `desc` and `args` of a `create_tool` line.
fn parse_create_tool_args(args_str: &Vec<char>) -> (r: Result<(Vec<char>, Vec<char>, Vec<char>), ParseError>)
    ensures
        match r {
            Ok(x) => (x.0@, x.1@, x.2@) == key_values(args_str@) && x.0@.len() > 0 && x.1@.len() > 0
                && x.2@.len() > 0,
            Err(e) => e@ == ParseErrorView::InvalidCreateToolArgs && (key_values(args_str@).0.len()
                == 0 || key_values(args_str@).1.len() == 0 || key_values(args_str@).2.len() == 0),
        },
{
    let (name, desc, args) = scan_key_values(args_str);
    if name.len() == 0 || desc.len() == 0 || args.len() == 0 {
        return Err(ParseError::InvalidCreateToolArgs);
    }
    Ok((name, desc, args))
}

/// The content after the tool line at `i` and the index of its end line.
fn content_lines(bl: &Vec<Vec<char>>, i: usize) -> (r: (Vec<char>, usize))
    requires
        i < bl.len(),
    ensures
        r.0@ == content_after(views(bl@), i as int),
        r.1 as int == eof_index(views(bl@), i + 1),
        i < r.1 <= bl.len(),
{
    let ghost bv = views(bl@);
    let eof = chars_of("EOF_PRIME");
    let mut j = i + 1;
    let mut part: Vec<Vec<char>> = Vec::new();
    while j < bl.len() && !eq_chars(&trim_chars(&bl[j]), &eof)
        invariant
            i < j <= bl.len(),
            bv == views(bl@),
            eof@ == eof_marker(),
            eof_index(bv, i + 1) == eof_index(bv, j as int),
            views(part@) == bv.subrange(i + 1, j as int),
        decreases bl.len() - j,
    {
        let line = copy_chars(&bl[j]);
        proof {
            lemma_views_push(part@, line);
        }
        part.push(line);
        assert(bv.subrange(i + 1, j + 1) =~= bv.subrange(i + 1, j as int).push(bv[j as int]));
        j = j + 1;
    }
    let nl: Vec<char> = vec!['\n'];
    assert(nl@ =~= seq!['\n']);
    if j < bl.len() {
        assert(bv[j as int] == bl@[j as int]@);
    }
    assert(eof_index(bv, j as int) == j);
    let content = join_chars(&part, &nl);
    (content, j)
}

/// Strings holding the given character sequences.
fn strings_of(v: &Vec<Vec<char>>) -> (r: Vec<String>)
    ensures
        string_views(r@) == views(v@),
{
    let mut r: Vec<String> = Vec::new();
    let mut i: usize = 0;
    while i < v.len()
        invariant
            i <= v.len(),
            string_views(r@) == views(v@).take(i as int),
        decreases v.len() - i,
    {
        let s = string_of(&v[i]);
        proof {
            lemma_string_views_push(r@, s);
        }
        r.push(s);
        assert(views(v@).take(i + 1) =~= views(v@).take(i as int).push(v@[i as int]@));
        i = i + 1;
    }
    assert(views(v@).take(v.len() as int) =~= views(v@));
    r
}

/// Parses a model response into its plain text and its tool calls.
///
/// The plain text is every line outside the `primeactions` blocks, trimmed
/// as a whole. Each block line `tool: arguments` becomes one call; the
/// first malformed `read_file` range or `create_tool` header makes the
/// whole parse fail with that error.
pub fn parse_llm_response(input: &str) -> (r: Result<ParsedResponse, ParseError>)
    ensures
        match (r, parse_response(input@)) {
            (Ok(p), Ok(q)) => p.natural_language@ == q.0 && call_views(p.tool_calls@) == q.1,
            (Err(e), Err(f)) => e@ == f,
            _ => false,
        },
{
    let text = chars_of(input);
    let (natural, bl) = find_primeactions_block(&text);
    let ghost bv = views(bl@);
    let mut calls: Vec<ToolCall> = Vec::new();
    let mut i: usize = 0;
    assert(prefix_with(call_views(calls@), calls_from(bv, 0)) =~= calls_from(bv, 0)) by {
        assert(call_views(calls@) =~= Seq::<ToolCallView>::empty());
        match calls_from(bv, 0) {
            Ok(v) => {
                assert(Seq::<ToolCallView>::empty() + v =~= v);
            },
            Err(_) => {},
        }
    }
    while i < bl.len()
        invariant
            i <= bl.len(),
            bv == views(bl@),
            bv == split_block(input@).1,
            natural@ == split_block(input@).0,
            calls_from(bv, 0) == prefix_with(call_views(calls@), calls_from(bv, i as int)),
        decreases bl.len() - i,
    {
        let t = trim_chars(&bl[i]);
        assert(bv[i as int] == bl@[i as int]@);
        let c = next_char_at(&t, ':', 0);
        if t.len() == 0 || c >= t.len() {
            i = i + 1;
            continue;
        }
        let head = slice_chars(&t, 0, c);
        assert(head@ =~= t@.take(c as int));
        let tool = trim_chars(&head);
        let rest = slice_chars(&t, c + 1, t.len());
        assert(rest@ =~= t@.skip(c + 1));
        let args = trim_chars(&rest);
        proof {
            lemma_eof_index_bounds(bv, i + 1);
        }
        let ghost pre = call_views(calls@);
        let call: ToolCall;
        let next: usize;
        if eq_str(&tool, "shell") {
            call = ToolCall::Shell { command: string_of(&args) };
            next = i + 1;
        } else if eq_str(&tool, "list_dir") {
            call = ToolCall::ListDir { path: string_of(&args) };
            next = i + 1;
        } else if eq_str(&tool, "cd") || eq_str(&tool, "change_dir") {
            call = ToolCall::ChangeDir { path: string_of(&args) };
            next = i + 1;
        } else if eq_str(&tool, "read_file") {
            match parse_read_args(&args) {
                Err(e) => {
                    assert(t@ == trim(bv[i as int]));
                    assert(tool@ == trim(t@.take(c as int)));
                    assert(args@ == trim(t@.skip(c + 1)));
                    assert(calls_from(bv, i as int) == Err::<Seq<ToolCallView>, ParseErrorView>(e@));
                    return Err(e);
                },
                Ok((path, lines)) => {
                    call = ToolCall::ReadFile { path: string_of(&path), lines };
                    next = i + 1;
                },
            }
        } else if eq_str(&tool, "write_memory") {
            let sp = next_char_at(&args, ' ', 0);
            let mt = slice_chars(&args, 0, sp);
            assert(mt@ =~= args@.take(sp as int));
            let (content, e) = content_lines(&bl, i);
            call = ToolCall::WriteMemory { memory_type: string_of(&mt), content: string_of(&content) };
            next = if e < bl.len() {
                e + 1
            } else {
                e
            };
            assert(calls_from(bv, e + 1) == calls_from(bv, next as int));
        } else if eq_str(&tool, "clear_memory") {
            call = ToolCall::ClearMemory { memory_type: string_of(&args) };
            next = i + 1;
        } else if eq_str(&tool, "write_file") {
            let (path, append) = parse_write_args(&args);
            let (content, e) = content_lines(&bl, i);
            call = ToolCall::WriteFile { path: string_of(&path), content: string_of(&content), append };
            next = if e < bl.len() {
                e + 1
            } else {
                e
            };
            assert(calls_from(bv, e + 1) == calls_from(bv, next as int));
        } else if eq_str(&tool, "create_tool") {
            match parse_create_tool_args(&args) {
                Err(e) => {
                    return Err(e);
                },
                Ok((name, desc, spec)) => {
                    let (content, e) = content_lines(&bl, i);
                    call = ToolCall::CreateTool {
                        name: string_of(&name),
                        desc: string_of(&desc),
                        args: string_of(&spec),
                        script_content: string_of(&content),
                    };
                    next = if e < bl.len() {
                e + 1
            } else {
                e
            };
            assert(calls_from(bv, e + 1) == calls_from(bv, next as int));
                },
            }
        } else {
            let ws = words_of(&args);
            call = ToolCall::ScriptTool { name: string_of(&tool), args: strings_of(&ws) };
            next = i + 1;
        }
        proof {
            lemma_prefix_with_prepend(pre, call@, calls_from(bv, next as int));
            lemma_call_views_push(calls@, call);
        }
        calls.push(call);
        i = next;
    }
    assert(calls_from(bv, i as int) == Ok::<Seq<ToolCallView>, ParseErrorView>(Seq::empty()));
    assert(call_views(calls@) + Seq::<ToolCallView>::empty() =~= call_views(calls@));
    Ok(ParsedResponse { natural_language: string_of(&natural), tool_calls: calls })
}

// ---------------------------------------------------------------------
// Laws
// ---------------------------------------------------------------------

/// Without an opening line, no block is ever open and no block line is
/// kept.
proof fn lemma_no_block_opened(ls: Seq<Seq<char>>, k: nat)
    requires
        k <= ls.len(),
        forall|i: int| 0 <= i < ls.len() ==> !starts_with(trim(#[trigger] ls[i]), block_open()),
    ensures
        !block_state(ls, k).0,
        block_state(ls, k).2.len() == 0,
    decreases k,
{
    if k > 0 {
        lemma_no_block_opened(ls, (k - 1) as nat);
    }
}

/// A response with no line that opens an action block calls no tool: its
/// parse succeeds with no calls.
pub proof fn law_plain_response_has_no_calls(input: Seq<char>)
    requires
        forall|i: int|
            0 <= i < lines(input).len() ==> !starts_with(trim(#[trigger] lines(input)[i]), block_open()),
    ensures
        parse_response(input) matches Ok((_, calls)) && calls.len() == 0,
{
    lemma_no_block_opened(lines(input), lines(input).len());
}

/// The one-line block that holds `line`.
pub open spec fn one_line_block(line: Seq<char>) -> Seq<Seq<char>> {
    seq![line]
}

/// A block line `tool: args`, with a tool name free of colons and spaces
/// around it and trimmed arguments, parses as that tool with those
/// arguments: a `shell` line as the command, a `list_dir`, `cd` or
/// `clear_memory` line as its path or memory type.
pub proof fn law_simple_tool_line_parses(tool: Seq<char>, args: Seq<char>)
    requires
        tool == "shell"@ || tool == "list_dir"@ || tool == "cd"@ || tool == "clear_memory"@,
        trim(args) == args,
    ensures
        calls_from(one_line_block(tool + ": "@ + args), 0) == Ok::<Seq<ToolCallView>, ParseErrorView>(
            seq![
            if tool == "shell"@ {
                ToolCallView::Shell { command: args }
            } else if tool == "list_dir"@ {
                ToolCallView::ListDir { path: args }
            } else if tool == "cd"@ {
                ToolCallView::ChangeDir { path: args }
            } else {
                ToolCallView::ClearMemory { memory_type: args }
            }],
        ),
{
    reveal_strlit("shell");
    reveal_strlit("list_dir");
    reveal_strlit("cd");
    reveal_strlit("clear_memory");
    reveal_strlit("change_dir");
    reveal_strlit("read_file");
    reveal_strlit("write_memory");
    reveal_strlit("write_file");
    reveal_strlit("create_tool");
    reveal_strlit(": ");
    let line = tool + ": "@ + args;
    let bl = one_line_block(line);
    assert(": "@ =~= seq![':', ' ']);
    assert(tool.len() > 0 && !is_ws(tool[0]) && !is_ws(tool.last()));
    assert(forall|j: int| 0 <= j < tool.len() ==> tool[j] != ':');
    assert(line[tool.len() as int] == ':');
    let t = trim(line);
    if args.len() > 0 {
        crate::text::lemma_trimmed_ends(args);
        assert(line.last() == args.last());
        crate::text::lemma_trim_fixed(line);
        assert(t == line);
    } else {
        assert(line =~= tool + seq![':', ' ']);
        let short = tool + seq![':'];
        assert(line.drop_last() =~= short);
        assert(trim_start(line) == line);
        assert(trim_end(short) == short);
        assert(trim_end(line) == short);
        assert(t == short);
    }
    crate::text::lemma_next_char_at(t, ':', 0, tool.len() as int);
    let c = next_char(t, ':', 0);
    assert(c == tool.len());
    assert(t.take(c) =~= tool);
    crate::text::lemma_trim_fixed(tool);
    if args.len() > 0 {
        let rest = t.skip(c + 1);
        assert(rest =~= seq![' '] + args);
        assert(rest.drop_first() =~= args);
        crate::text::lemma_trimmed_ends(args);
        assert(trim_start(args) == args);
        assert(trim_start(rest) == args);
    } else {
        assert(t.skip(c + 1) =~= Seq::<char>::empty());
    }
    assert(trim(t.skip(c + 1)) == args);
    assert(calls_from(bl, 1) == Ok::<Seq<ToolCallView>, ParseErrorView>(Seq::empty()));
    assert(seq![
        if tool == "shell"@ {
            ToolCallView::Shell { command: args }
        } else if tool == "list_dir"@ {
            ToolCallView::ListDir { path: args }
        } else if tool == "cd"@ {
            ToolCallView::ChangeDir { path: args }
        } else {
            ToolCallView::ClearMemory { memory_type: args }
        }] + Seq::<ToolCallView>::empty() =~= seq![
        if tool == "shell"@ {
            ToolCallView::Shell { command: args }
        } else if tool == "list_dir"@ {
            ToolCallView::ListDir { path: args }
        } else if tool == "cd"@ {
            ToolCallView::ChangeDir { path: args }
        } else {
            ToolCallView::ClearMemory { memory_type: args }
        }]);
}

/// The line that asks to read a file, with an optional line range.
pub open spec fn read_line_text(path: Seq<char>, lines: Option<(usize, usize)>) -> Seq<char> {
    "read_file: "@ + path + match lines {
        Some((s, e)) => " lines="@ + decimal(s as nat) + "-"@ + decimal(e as nat),
        None => Seq::empty(),
    }
}

/// A `read_file` line splits into its tool name and its arguments: the
/// path and what follows it.
proof fn lemma_read_line_split(path: Seq<char>, tail: Seq<char>)
    requires
        path.len() > 0,
        trim(path) == path,
        tail.len() > 0 ==> !is_ws(tail.last()),
    ensures
        ({
            let t = trim("read_file: "@ + path + tail);
            &&& t == "read_file: "@ + path + tail
            &&& t.len() > 10
            &&& next_char(t, ':', 0) == 9
            &&& trim(t.take(9)) == "read_file"@
            &&& trim(t.skip(10)) == path + tail
        }),
{
    reveal_strlit("read_file: ");
    reveal_strlit("read_file");
    let line = "read_file: "@ + path + tail;
    crate::text::lemma_trimmed_ends(path);
    let args = path + tail;
    if tail.len() > 0 {
        assert(line.last() == tail.last());
        assert(args.last() == tail.last());
    } else {
        assert(line.last() == path.last());
        assert(args.last() == path.last());
    }
    crate::text::lemma_trim_fixed(line);
    crate::text::lemma_next_char_at(line, ':', 0, 9);
    assert(line.take(9) =~= "read_file"@);
    crate::text::lemma_trim_fixed("read_file"@);
    let rest = line.skip(10);
    assert(rest =~= seq![' '] + args);
    assert(rest.drop_first() =~= args);
    crate::text::lemma_trim_fixed(args);
    assert(trim_start(rest) == args);
}

/// The arguments of a `read_file` line with a range give back the path and
/// the range.
#[verifier::spinoff_prover]
#[verifier::rlimit(40)]
proof fn lemma_read_args_range(path: Seq<char>, s: usize, e: usize)
    requires
        path.len() > 0,
        trim(path) == path,
    ensures
        read_args(path + " lines="@ + decimal(s as nat) + "-"@ + decimal(e as nat)) == Ok::<
            (Seq<char>, Option<(usize, usize)>),
            ParseErrorView,
        >((path, Some((s, e)))),
{
    reveal_strlit(" lines=");
    reveal_strlit("-");
    let ds = decimal(s as nat);
    let de = decimal(e as nat);
    crate::text::lemma_decimal_digits(s as nat);
    crate::text::lemma_decimal_digits(e as nat);
    let pat = " lines="@;
    let args = path + pat + ds + "-"@ + de;
    let k = path.len() as int;
    assert(args.subrange(k, k + 7) =~= pat);
    assert forall|i: int| k < i <= args.len() - 7 implies !occurs_at(args, pat, i) by {
        assert(args.subrange(i, i + 7)[0] == args[i]);
        if i < k + 7 {
            assert(args[i] == pat[i - k]);
        } else if i < k + 7 + ds.len() {
            assert(args[i] == ds[i - k - 7]);
        } else if i == k + 7 + ds.len() {
            assert(args[i] == '-');
        } else {
            assert(args[i] == de[i - k - 8 - ds.len()]);
        }
    }
    crate::text::lemma_rfind_at(args, pat, args.len() - 7, k);
    assert(args.take(k) =~= path);
    let r = args.skip(k + 7);
    assert(r =~= ds + "-"@ + de);
    assert(r[0] == ds[0]);
    assert(r.last() == de.last());
    crate::text::lemma_trim_fixed(r);
    crate::text::lemma_next_char_at(r, '-', 0, ds.len() as int);
    crate::text::lemma_next_char_absent(r, '-', (ds.len() + 1) as int);
    assert(r.take(ds.len() as int) =~= ds);
    assert(r.skip((ds.len() + 1) as int) =~= de);
    crate::text::lemma_parse_decimal(s);
    crate::text::lemma_parse_decimal(e);
}

/// A `read_file` line for a path with no whitespace around it parses as a
/// read of that path with the same line range; without a range, the path
/// must not itself hold " lines=".
pub proof fn law_read_line_parses(path: Seq<char>, lines: Option<(usize, usize)>)
    requires
        path.len() > 0,
        trim(path) == path,
        lines is None ==> rfind(path, " lines="@) is None,
    ensures
        calls_from(one_line_block(read_line_text(path, lines)), 0) == Ok::<
            Seq<ToolCallView>,
            ParseErrorView,
        >(seq![ToolCallView::ReadFile { path: path, lines: lines }]),
{
    reveal_strlit("read_file");
    reveal_strlit("shell");
    reveal_strlit("list_dir");
    reveal_strlit("cd");
    reveal_strlit("change_dir");
    let tail = match lines {
        Some((s, e)) => " lines="@ + decimal(s as nat) + "-"@ + decimal(e as nat),
        None => Seq::<char>::empty(),
    };
    match lines {
        Some((s, e)) => {
            crate::text::lemma_decimal_digits(e as nat);
            assert(tail.last() == decimal(e as nat).last());
            lemma_read_args_range(path, s, e);
            assert(path + tail =~= path + " lines="@ + decimal(s as nat) + "-"@ + decimal(e as nat));
        },
        None => {
            assert(path + tail =~= path);
        },
    }
    lemma_read_line_split(path, tail);
    assert(read_line_text(path, lines) =~= "read_file: "@ + path + tail);
    assert(calls_from(one_line_block(read_line_text(path, lines)), 1) == Ok::<
        Seq<ToolCallView>,
        ParseErrorView,
    >(Seq::empty()));
    assert(read_args(path + tail) == Ok::<(Seq<char>, Option<(usize, usize)>), ParseErrorView>(
        (path, lines),
    ));
    assert(seq![ToolCallView::ReadFile { path: path, lines: lines }] + Seq::<ToolCallView>::empty()
        =~= seq![ToolCallView::ReadFile { path: path, lines: lines }]);
    let bl = one_line_block(read_line_text(path, lines));
    let t = trim(bl[0]);
    assert(t.len() > 0);
    let c = next_char(t, ':', 0);
    assert(c == 9);
    assert(c < t.len());
    let tool = trim(t.take(c));
    assert(tool == "read_file"@);
    assert("read_file"@.len() == 9 && "shell"@.len() == 5 && "list_dir"@.len() == 8 && "cd"@.len()
        == 2 && "change_dir"@.len() == 10);
    assert(tool != "shell"@ && tool != "list_dir"@ && tool != "cd"@ && tool != "change_dir"@);
    assert(trim(t.skip(c + 1)) == path + tail);
}


/// The next whitespace is at `k` when `s[k]` is whitespace and nothing
/// before it from `i` is.
pub proof fn lemma_next_ascii_ws_at(s: Seq<char>, i: int, k: int)
    requires
        0 <= i <= k <= s.len(),
        k < s.len() ==> is_ascii_ws(s[k]),
        forall|j: int| i <= j < k ==> !is_ascii_ws(s[j]),
    ensures
        next_ascii_ws(s, i) == k,
    decreases k - i,
{
    if i < k {
        lemma_next_ascii_ws_at(s, i + 1, k);
    }
}

/// The text of a tool header: the name without quotes, then the
/// description and the argument list in double quotes.
pub open spec fn header_text(name: Seq<char>, desc: Seq<char>, args: Seq<char>) -> Seq<char> {
    "name="@ + name + " desc=\""@ + desc + "\" args=\""@ + args + "\""@
}

/// One quoted pair: from index `i`, where a space stands before the key
/// `key` (four letters), `=`, and a value in quotes that ends at `e`, the
/// scan takes the value for the key and goes on after the closing quote.
proof fn lemma_scan_quoted_pair(
    s: Seq<char>,
    i: int,
    key: Seq<char>,
    e: int,
    name: Seq<char>,
    desc: Seq<char>,
    args: Seq<char>,
)
    requires
        0 <= i,
        i + 7 <= e < s.len(),
        key.len() == 4,
        s[i] == ' ',
        s.subrange(i + 1, i + 5) == key,
        forall|j: int| 0 <= j < 4 ==> key[j] != '=' && !is_ws(key[j]) && !is_ascii_ws(key[j]),
        s[i + 5] == '=',
        s[i + 6] == '"',
        s[e] == '"',
        forall|j: int| i + 7 <= j < e ==> s[j] != '"',
    ensures
        scan_pairs(s, i, name, desc, args) == (if key == "name"@ {
            scan_pairs(s, e + 1, s.subrange(i + 7, e), desc, args)
        } else if key == "desc"@ {
            scan_pairs(s, e + 1, name, s.subrange(i + 7, e), args)
        } else if key == "args"@ {
            scan_pairs(s, e + 1, name, desc, s.subrange(i + 7, e))
        } else {
            scan_pairs(s, e + 1, name, desc, args)
        }),
{
    assert(skip_ascii_ws(s, i + 1) == i + 1) by {
        assert(s[i + 1] == key[0]);
    }
    assert(skip_ascii_ws(s, i) == i + 1);
    assert forall|j: int| i + 2 <= j < i + 5 implies s[j] != '=' by {
        assert(s[j] == key[j - i - 1]);
    }
    lemma_next_char_at(s, '=', i + 2, i + 5);
    lemma_trim_fixed(s.subrange(i + 1, i + 5));
    assert(skip_ascii_ws(s, i + 6) == i + 6);
    lemma_next_char_at(s, '"', i + 7, e);
}

/// A tool header as `create_tool` writes it scans back to its name,
/// description and argument list, when the name is not empty and holds no
/// whitespace or quote, and the other two hold no quote.
pub proof fn law_header_text_scans_back(name: Seq<char>, desc: Seq<char>, args: Seq<char>)
    requires
        name.len() > 0,
        forall|j: int| 0 <= j < name.len() ==> !is_ascii_ws(#[trigger] name[j]) && name[j] != '"',
        forall|j: int| 0 <= j < desc.len() ==> #[trigger] desc[j] != '"',
        forall|j: int| 0 <= j < args.len() ==> #[trigger] args[j] != '"',
    ensures
        key_values(header_text(name, desc, args)) == (name, desc, args),
{
    reveal_strlit("name=");
    reveal_strlit(" desc=\"");
    reveal_strlit("\" args=\"");
    reveal_strlit("\"");
    reveal_strlit("name");
    reveal_strlit("desc");
    reveal_strlit("args");
    let s = header_text(name, desc, args);
    let n = name.len() as int;
    let d = desc.len() as int;
    let a = args.len() as int;
    assert(s.len() == 21 + n + d + a);
    assert(s.subrange(5, 5 + n) =~= name);
    assert forall|j: int| 5 <= j < 5 + n implies s[j] == name[j - 5] by {}
    // the first pair: name=value, without quotes
    assert(skip_ascii_ws(s, 0) == 0);
    lemma_next_char_at(s, '=', 1, 4);
    assert(s.subrange(0, 4) =~= "name"@);
    lemma_trim_fixed(s.subrange(0, 4));
    assert(s[5] == name[0]);
    assert(skip_ascii_ws(s, 5) == 5);
    lemma_next_ascii_ws_at(s, 5, 5 + n);
    assert(scan_pairs(s, 0, Seq::empty(), Seq::empty(), Seq::empty()) == scan_pairs(
        s,
        5 + n,
        name,
        Seq::empty(),
        Seq::empty(),
    ));
    // the description
    assert(s.subrange(6 + n, 10 + n) =~= "desc"@);
    assert forall|j: int| 12 + n <= j < 12 + n + d implies s[j] != '"' by {
        assert(s[j] == desc[j - 12 - n]);
    }
    lemma_scan_quoted_pair(s, 5 + n, "desc"@, 12 + n + d, name, Seq::empty(), Seq::empty());
    assert(s.subrange(12 + n, 12 + n + d) =~= desc);
    assert("desc"@ != "name"@) by {
        assert("desc"@[0] != "name"@[0]);
    }
    assert(scan_pairs(s, 5 + n, name, Seq::empty(), Seq::empty()) == scan_pairs(
        s,
        13 + n + d,
        name,
        desc,
        Seq::empty(),
    ));
    // the argument list
    assert(s.subrange(14 + n + d, 18 + n + d) =~= "args"@);
    assert forall|j: int| 20 + n + d <= j < 20 + n + d + a implies s[j] != '"' by {
        assert(s[j] == args[j - 20 - n - d]);
    }
    lemma_scan_quoted_pair(s, 13 + n + d, "args"@, 20 + n + d + a, name, desc, Seq::empty());
    assert(s.subrange(20 + n + d, 20 + n + d + a) =~= args);
    assert("args"@ != "name"@ && "args"@ != "desc"@) by {
        assert("args"@[0] != "name"@[0]);
        assert("args"@[0] != "desc"@[0]);
    }
    assert(scan_pairs(s, 13 + n + d, name, desc, Seq::empty()) == scan_pairs(
        s,
        21 + n + d + a,
        name,
        desc,
        args,
    ));
    assert(skip_ascii_ws(s, s.len() as int) == s.len());
    assert(scan_pairs(s, 21 + n + d + a, name, desc, args) == (name, desc, args));
}


/// Trimming the end keeps a prefix.
proof fn lemma_trim_end_prefix(s: Seq<char>)
    ensures
        trim_end(s).len() <= s.len(),
        trim_end(s) == s.take(trim_end(s).len() as int),
    decreases s.len(),
{
    if s.len() > 0 && is_ws(s.last()) {
        lemma_trim_end_prefix(s.drop_last());
        assert(s.drop_last().take(trim_end(s).len() as int) =~= s.take(trim_end(s).len() as int));
    } else {
        assert(s.take(s.len() as int) =~= s);
    }
}

/// A response that is one action block holding one line splits into no
/// plain text and that line, when the line starts with neither whitespace
/// nor a backquote and holds no line break, and does not end with a
/// carriage return.
pub proof fn lemma_one_line_response(line: Seq<char>)
    requires
        line.len() > 0,
        !is_ws(line[0]),
        line[0] != '`',
        forall|j: int| 0 <= j < line.len() ==> #[trigger] line[j] != '\n',
        line.last() != '\r',
    ensures
        split_block("```primeactions\n"@ + line + "\n```"@) == (Seq::<char>::empty(), seq![line]),
        block_state(
            lines("```primeactions\n"@ + line + "\n```"@),
            lines("```primeactions\n"@ + line + "\n```"@).len(),
        ) == (false, Seq::<char>::empty(), seq![line]),
{
    reveal_strlit("```primeactions\n");
    reveal_strlit("\n```");
    reveal_strlit("```primeactions");
    let open = block_open();
    let s = "```primeactions\n"@ + line + "\n```"@;
    let n = line.len() as int;
    assert(s.len() == 20 + n);
    assert(s.subrange(0, 15) =~= open);
    lemma_next_char_at(s, '\n', 0, 15);
    assert forall|j: int| 16 <= j < 16 + n implies s[j] != '\n' by {
        assert(s[j] == line[j - 16]);
    }
    lemma_next_char_at(s, '\n', 16, 16 + n);
    assert(s.subrange(16, 16 + n) =~= line);
    crate::text::lemma_next_char_absent(s, '\n', 17 + n);
    assert(s.subrange(17 + n, 20 + n) =~= fence());
    let ls = lines(s);
    assert(lines_from(s, 21 + n) =~= Seq::<Seq<char>>::empty());
    assert(lines_from(s, 17 + n) =~= seq![fence()]);
    assert(lines_from(s, 16) =~= seq![line, fence()]);
    assert(ls =~= seq![open, line, fence()]);
    lemma_trim_fixed(open);
    assert(open.take(15) =~= block_open());
    assert(fence().last() == '`');
    lemma_trim_fixed(fence());
    assert(fence().take(3) =~= fence());
    lemma_trim_end_prefix(line);
    assert(trim_start(line) == line);
    assert(!starts_with(trim(line), fence())) by {
        if starts_with(trim(line), fence()) {
            assert(trim(line)[0] == line[0]);
            assert(trim(line).take(3)[0] == fence()[0]);
        }
    }
    assert(block_state(ls, 0) == (false, Seq::<char>::empty(), Seq::<Seq<char>>::empty()));
    assert(ls[0] == open);
    assert(trim(open) == open);
    assert(starts_with(trim(open), block_open()));
    assert(block_state(ls, 1) == (true, Seq::<char>::empty(), Seq::<Seq<char>>::empty()));
    assert(block_state(ls, 2) == (true, Seq::<char>::empty(), seq![line]));
    assert(block_state(ls, 3) == (false, Seq::<char>::empty(), seq![line]));
    assert(trim(Seq::<char>::empty()) =~= Seq::<char>::empty());
}


/// The state after the first `k` lines of a response that begins with
/// `ls1` is the state after the first `k` lines of `ls1`.
proof fn lemma_block_state_prefix(ls1: Seq<Seq<char>>, ls2: Seq<Seq<char>>, k: nat)
    requires
        k <= ls1.len(),
    ensures
        block_state(ls1 + ls2, k) == block_state(ls1, k),
    decreases k,
{
    if k > 0 {
        lemma_block_state_prefix(ls1, ls2, (k - 1) as nat);
        assert((ls1 + ls2)[k - 1] == ls1[k - 1]);
    }
}

/// After `ls1` and the first `j` lines of `ls2`, when `ls1` leaves no block
/// open, the state is that of those lines of `ls2` on their own, with the
/// plain text and block lines of `ls1` before theirs.
proof fn lemma_block_state_suffix(ls1: Seq<Seq<char>>, ls2: Seq<Seq<char>>, j: nat)
    requires
        j <= ls2.len(),
        !block_state(ls1, ls1.len()).0,
    ensures
        block_state(ls1 + ls2, ls1.len() + j) == (
            block_state(ls2, j).0,
            block_state(ls1, ls1.len()).1 + block_state(ls2, j).1,
            block_state(ls1, ls1.len()).2 + block_state(ls2, j).2,
        ),
    decreases j,
{
    let st1 = block_state(ls1, ls1.len());
    if j == 0 {
        lemma_block_state_prefix(ls1, ls2, ls1.len());
        assert(st1.1 + Seq::<char>::empty() =~= st1.1);
        assert(st1.2 + Seq::<Seq<char>>::empty() =~= st1.2);
    } else {
        lemma_block_state_suffix(ls1, ls2, (j - 1) as nat);
        let p2 = block_state(ls2, (j - 1) as nat);
        let line = ls2[j - 1];
        assert((ls1 + ls2)[ls1.len() + j - 1] == line);
        assert(st1.1 + p2.1 + line + seq!['\n'] =~= st1.1 + (p2.1 + line + seq!['\n']));
        assert((st1.2 + p2.2).push(line) =~= st1.2 + p2.2.push(line));
    }
}

/// Action blocks compose: when the first part of a response leaves no block
/// open, the rest is read as it would be on its own, its plain text after
/// the first part's and its block lines after the first part's. So every
/// line that opens an action block while none is open opens one, whatever
/// blocks came before, and a response made of two action blocks gives the
/// lines of the first and then those of the second.
pub proof fn law_blocks_compose(ls1: Seq<Seq<char>>, ls2: Seq<Seq<char>>)
    requires
        !block_state(ls1, ls1.len()).0,
    ensures
        block_state(ls1 + ls2, (ls1.len() + ls2.len()) as nat) == (
            block_state(ls2, ls2.len()).0,
            block_state(ls1, ls1.len()).1 + block_state(ls2, ls2.len()).1,
            block_state(ls1, ls1.len()).2 + block_state(ls2, ls2.len()).2,
        ),
{
    lemma_block_state_suffix(ls1, ls2, ls2.len());
}


/// A line that opens an action block, met while none is open, opens one,
/// whatever blocks came before; the block lines so far stay as they were.
pub proof fn law_open_line_opens_block(ls: Seq<Seq<char>>, k: nat)
    requires
        k < ls.len(),
        !block_state(ls, k).0,
        starts_with(trim(ls[k as int]), block_open()),
    ensures
        block_state(ls, k + 1).0,
        block_state(ls, k + 1).1 == block_state(ls, k).1,
        block_state(ls, k + 1).2 == block_state(ls, k).2,
{
}

/// Searching the joined text from inside its first part finds what the
/// first part holds, when it holds one.
proof fn lemma_next_char_prefix(x: Seq<char>, y: Seq<char>, c: char, i: int)
    requires
        0 <= i <= x.len(),
        next_char(x, c, i) < x.len(),
    ensures
        next_char(x + y, c, i) == next_char(x, c, i),
    decreases x.len() - i,
{
    if x[i] != c {
        lemma_next_char_prefix(x, y, c, i + 1);
    }
}

/// Searching the joined text inside its second part finds what the second
/// part holds, shifted.
proof fn lemma_next_char_shift(x: Seq<char>, y: Seq<char>, c: char, k: int)
    requires
        0 <= k,
    ensures
        next_char(x + y, c, x.len() + k) == x.len() + next_char(y, c, k),
    decreases y.len() - k,
{
    if k < y.len() && y[k] != c {
        lemma_next_char_shift(x, y, c, k + 1);
    }
}

/// The lines of the joined text from inside its second part are those of
/// the second part.
proof fn lemma_lines_shift(x: Seq<char>, y: Seq<char>, k: int)
    requires
        0 <= k,
    ensures
        lines_from(x + y, x.len() + k) == lines_from(y, k),
    decreases y.len() + 1 - k,
{
    if k < y.len() {
        lemma_next_char_shift(x, y, '\n', k);
        lemma_next_char_bounds(y, '\n', k);
        let e = next_char(y, '\n', k);
        lemma_lines_shift(x, y, e + 1);
        assert((x + y).subrange(x.len() + k, x.len() + e) =~= y.subrange(k, e));
    }
}

/// The lines of a text that ends with a line break, followed by another
/// text, are the lines of the first and then those of the second.
proof fn lemma_lines_concat(x: Seq<char>, y: Seq<char>, i: int)
    requires
        x.len() > 0,
        x.last() == '\n',
        0 <= i <= x.len(),
    ensures
        lines_from(x + y, i) == lines_from(x, i) + lines_from(y, 0),
    decreases x.len() - i,
{
    if i == x.len() {
        lemma_lines_shift(x, y, 0);
        assert(lines_from(x, i) =~= Seq::<Seq<char>>::empty());
        assert(lines_from(x, i) + lines_from(y, 0) =~= lines_from(y, 0));
    } else {
        lemma_next_char_bounds(x, '\n', i);
        if next_char(x, '\n', i) == x.len() {
            assert(x[x.len() - 1] == '\n');
            assert(false);
        }
        let e = next_char(x, '\n', i);
        lemma_next_char_prefix(x, y, '\n', i);
        lemma_lines_concat(x, y, e + 1);
        assert((x + y).subrange(i, e) =~= x.subrange(i, e));
        assert(lines_from(x + y, i) =~= lines_from(x, i) + lines_from(y, 0));
    }
}

/// A response whose first part ends with a line break and leaves no action
/// block open splits as its two parts would, one after the other: the block
/// lines of the whole are those of the first part and then those of the
/// second. So two action blocks in a row give the lines of both.
pub proof fn law_split_block_concat(x: Seq<char>, y: Seq<char>)
    requires
        x.len() > 0,
        x.last() == '\n',
        !block_state(lines(x), lines(x).len()).0,
    ensures
        split_block(x + y).1 == split_block(x).1 + split_block(y).1,
        split_block(x + y).0 == trim(
            block_state(lines(x), lines(x).len()).1 + block_state(lines(y), lines(y).len()).1,
        ),
{
    lemma_lines_concat(x, y, 0);
    law_blocks_compose(lines(x), lines(y));
}


/// The lines of a one-line action block that ends with a line break, and
/// the state after them: no block open, no plain text, the one line.
proof fn lemma_one_line_block_with_break(line: Seq<char>)
    requires
        line.len() > 0,
        !is_ws(line[0]),
        line[0] != '`',
        forall|j: int| 0 <= j < line.len() ==> #[trigger] line[j] != '\n',
        line.last() != '\r',
    ensures
        block_state(
            lines("```primeactions\n"@ + line + "\n```\n"@),
            lines("```primeactions\n"@ + line + "\n```\n"@).len(),
        ) == (false, Seq::<char>::empty(), seq![line]),
{
    reveal_strlit("```primeactions\n");
    reveal_strlit("\n```");
    reveal_strlit("\n```\n");
    let r = "```primeactions\n"@ + line + "\n```"@;
    let x = "```primeactions\n"@ + line + "\n```\n"@;
    lemma_one_line_response(line);
    assert(x =~= r + seq!['\n']);
    let n = line.len() as int;
    // the last line ends at the final break instead of the end of the text
    assert forall|j: int| 0 <= j < x.len() - 1 implies x[j] == r[j] by {}
    assert forall|j: int| 17 + n <= j < r.len() implies r[j] != '\n' by {}
    crate::text::lemma_next_char_absent(r, '\n', 17 + n);
    crate::text::lemma_next_char_at(x, '\n', 17 + n, 20 + n);
    assert(lines_from(x, 21 + n) =~= Seq::<Seq<char>>::empty());
    assert(lines_from(r, 21 + n) =~= Seq::<Seq<char>>::empty());
    assert(x.subrange(17 + n, 20 + n) =~= r.subrange(17 + n, 20 + n));
    assert(lines_from(x, 17 + n) =~= lines_from(r, 17 + n));
    crate::text::lemma_next_char_at(r, '\n', 0, 15);
    lemma_next_char_prefix(r, seq!['\n'], '\n', 0);
    assert forall|j: int| 16 <= j < 16 + n implies r[j] != '\n' by {
        assert(r[j] == line[j - 16]);
    }
    crate::text::lemma_next_char_at(r, '\n', 16, 16 + n);
    lemma_next_char_prefix(r, seq!['\n'], '\n', 16);
    assert(x.subrange(16, 16 + n) =~= r.subrange(16, 16 + n));
    assert(x.subrange(0, 15) =~= r.subrange(0, 15));
    assert(lines_from(x, 16) =~= lines_from(r, 16));
    assert(lines_from(x, 0) =~= lines_from(r, 0));
}

/// Two one-line action blocks in a row, the first ending with a line break,
/// give both lines, in order, and no plain text.
pub proof fn law_two_action_blocks(l1: Seq<char>, l2: Seq<char>)
    requires
        l1.len() > 0 && !is_ws(l1[0]) && l1[0] != '`' && l1.last() != '\r',
        l2.len() > 0 && !is_ws(l2[0]) && l2[0] != '`' && l2.last() != '\r',
        forall|j: int| 0 <= j < l1.len() ==> #[trigger] l1[j] != '\n',
        forall|j: int| 0 <= j < l2.len() ==> #[trigger] l2[j] != '\n',
    ensures
        split_block(
            "```primeactions\n"@ + l1 + "\n```\n"@ + "```primeactions\n"@ + l2 + "\n```"@,
        ) == (Seq::<char>::empty(), seq![l1, l2]),
{
    reveal_strlit("\n```\n");
    let x = "```primeactions\n"@ + l1 + "\n```\n"@;
    let y = "```primeactions\n"@ + l2 + "\n```"@;
    lemma_one_line_block_with_break(l1);
    lemma_one_line_response(l2);
    assert(x.last() == '\n');
    law_split_block_concat(x, y);
    assert("```primeactions\n"@ + l1 + "\n```\n"@ + "```primeactions\n"@ + l2 + "\n```"@ =~= x + y);
    assert(seq![l1] + seq![l2] =~= seq![l1, l2]);
    assert(Seq::<char>::empty() + Seq::<char>::empty() =~= Seq::<char>::empty());
    assert(trim(Seq::<char>::empty()) =~= Seq::<char>::empty());
}

} // verus!
