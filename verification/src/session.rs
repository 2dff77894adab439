//! The assistant's session: how tool calls are shown and reported, the
//! custom tools found in `./prime/`, the conversation log and the prompt.
use vstd::prelude::*;
use crate::parser::{ToolCall, ToolCallView};
use crate::parser::{
    call_views, calls_from, header_text, lemma_one_line_response, parse_response, key_values, law_header_text_scans_back, law_read_line_parses, law_simple_tool_line_parses, one_line_block,
    read_line_text, scan_key_values, ParseErrorView, ParsedResponse,
};
use crate::processor::{asks_first, is_ask_me_before_command};
use crate::display::{textwrap_wrap, wrap_text};
use crate::text::{is_ascii_ws, lines_from};
use crate::text::{
    char_utf8_len, chars_of, decimal, decimal_chars, ends_with, ends_with_chars, eq_chars, fit_chars,
    fit_chars_exec, join, join_chars, len_utf8, lemma_fit_chars_whole, lines, lines_of, push_chars,
    push_str, slice_chars, starts_with, starts_with_str, string_of, string_views, trim, trim_chars,
    utf8_len, views, signed_decimal, i32_decimal_chars, find, split_on, split_on_chars, strip_leading,
    strip_leading_chars, strip_trailing, strip_trailing_chars, find_chars, occurs_at, rfind,
};

verus! {

/// The outcome of one tool call.
#[derive(Debug, Clone)]
pub struct ToolExecutionResult {
    pub tool_call_str: String,
    pub success: bool,
    pub output: String,
}

/// A custom tool script found in `./prime/`.
#[derive(Debug, Clone)]
pub struct DiscoveredTool {
    pub name: String,
    pub desc: String,
    pub args: String,
    pub path: String,
}

// ---------------------------------------------------------------------
// The text of a tool call
// ---------------------------------------------------------------------

/// The text with each line break written as a space.
pub open spec fn one_line(s: Seq<char>) -> Seq<char> {
    s.map_values(|c: char| if c == '\n' { ' ' } else { c })
}

/// Whether the first 30 bytes of a text longer than that end between
/// characters, so that it can be cut there.
pub open spec fn snippet_cut_ok(s: Seq<char>) -> bool {
    utf8_len(s) > 30 ==> utf8_len(s.take(fit_chars(s, 30))) == 30
}

/// A one-line snippet of a text: its first 30 bytes and "..." when it is
/// longer.
pub open spec fn snippet(s: Seq<char>) -> Seq<char> {
    if utf8_len(s) > 30 {
        one_line(s.take(fit_chars(s, 30))) + "..."@
    } else {
        one_line(s)
    }
}

/// The text of a boolean.
pub open spec fn bool_text(b: bool) -> Seq<char> {
    if b {
        "true"@
    } else {
        "false"@
    }
}

/// Whether the snippets of a tool call can be cut.
pub open spec fn call_text_ok(c: ToolCallView) -> bool {
    match c {
        ToolCallView::WriteFile { content, .. } => snippet_cut_ok(content),
        ToolCallView::WriteMemory { content, .. } => snippet_cut_ok(content),
        ToolCallView::CreateTool { script_content, .. } => snippet_cut_ok(script_content),
        _ => true,
    }
}

/// The one-line text of a tool call, as the log and the model see it.
pub open spec fn call_text(c: ToolCallView) -> Seq<char> {
    match c {
        ToolCallView::Shell { command } => "shell: "@ + command,
        ToolCallView::ReadFile { path, lines } => match lines {
            Some((s, e)) => "read_file: "@ + path + " lines="@ + decimal(s as nat) + "-"@
                + decimal(e as nat),
            None => "read_file: "@ + path,
        },
        ToolCallView::WriteFile { path, content, append } => "write_file: "@ + path + " append="@
            + bool_text(append) + " (content: \""@ + snippet(content) + "\")"@,
        ToolCallView::ListDir { path } => "list_dir: "@ + path,
        ToolCallView::ChangeDir { path } => "cd: "@ + path,
        ToolCallView::WriteMemory { memory_type, content } => "write_memory: "@ + memory_type
            + " (content: \""@ + snippet(content) + "\")"@,
        ToolCallView::ClearMemory { memory_type } => "clear_memory: "@ + memory_type,
        ToolCallView::ScriptTool { name, args } => name + ": "@ + join(args, " "@),
        ToolCallView::CreateTool { name, desc, args, script_content } => "create_tool: name="@
            + name + " desc=\""@ + desc + "\" args=\""@ + args + "\" (content: \""@ + snippet(
            script_content,
        ) + "\")"@,
    }
}

/// The characters with each line break written as a space.
fn one_line_chars(v: &Vec<char>) -> (r: Vec<char>)
    ensures
        r@ == one_line(v@),
{
    let mut r: Vec<char> = Vec::new();
    let mut i: usize = 0;
    while i < v.len()
        invariant
            i <= v.len(),
            r@ == one_line(v@.take(i as int)),
        decreases v.len() - i,
    {
        let c = v[i];
        r.push(if c == '\n' { ' ' } else { c });
        assert(one_line(v@.take(i + 1)) =~= one_line(v@.take(i as int)).push(
            if c == '\n' { ' ' } else { c },
        ));
        i = i + 1;
    }
    assert(v@.take(v.len() as int) =~= v@);
    r
}

/// A one-line snippet of a text: its first 30 bytes and "..." when longer.
fn snippet_of(s: &str) -> (r: Vec<char>)
    requires
        snippet_cut_ok(s@),
    ensures
        r@ == snippet(s@),
{
    let v = chars_of(s);
    let k = fit_chars_exec(&v, 30);
    proof {
        lemma_fit_chars_whole(v@, 30);
    }
    if k < v.len() {
        let cut = slice_chars(&v, 0, k);
        assert(cut@ =~= v@.take(k as int));
        let mut r = one_line_chars(&cut);
        push_str(&mut r, "...");
        r
    } else {
        one_line_chars(&v)
    }
}

/// Appends the text of a boolean.
fn push_bool(v: &mut Vec<char>, b: bool)
    ensures
        final(v)@ == old(v)@ + bool_text(b),
{
    if b {
        push_str(v, "true");
    } else {
        push_str(v, "false");
    }
}

/// The one-line text of a tool call, as the log and the model see it. The
/// content of a write or a new tool is cut at 30 bytes, which must fall
/// between characters.
pub fn tool_call_text(call: &ToolCall) -> (r: String)
    requires
        call_text_ok(call@),
    ensures
        r@ == call_text(call@),
{
    let mut out: Vec<char> = Vec::new();
    match call {
        ToolCall::Shell { command } => {
            push_str(&mut out, "shell: ");
            push_str(&mut out, command.as_str());
        },
        ToolCall::ReadFile { path, lines } => {
            push_str(&mut out, "read_file: ");
            push_str(&mut out, path.as_str());
            match lines {
                Some((s, e)) => {
                    push_str(&mut out, " lines=");
                    push_chars(&mut out, &decimal_chars(*s));
                    push_str(&mut out, "-");
                    push_chars(&mut out, &decimal_chars(*e));
                },
                None => {},
            }
        },
        ToolCall::WriteFile { path, content, append } => {
            push_str(&mut out, "write_file: ");
            push_str(&mut out, path.as_str());
            push_str(&mut out, " append=");
            push_bool(&mut out, *append);
            push_str(&mut out, " (content: \"");
            push_chars(&mut out, &snippet_of(content.as_str()));
            push_str(&mut out, "\")");
        },
        ToolCall::ListDir { path } => {
            push_str(&mut out, "list_dir: ");
            push_str(&mut out, path.as_str());
        },
        ToolCall::ChangeDir { path } => {
            push_str(&mut out, "cd: ");
            push_str(&mut out, path.as_str());
        },
        ToolCall::WriteMemory { memory_type, content } => {
            push_str(&mut out, "write_memory: ");
            push_str(&mut out, memory_type.as_str());
            push_str(&mut out, " (content: \"");
            push_chars(&mut out, &snippet_of(content.as_str()));
            push_str(&mut out, "\")");
        },
        ToolCall::ClearMemory { memory_type } => {
            push_str(&mut out, "clear_memory: ");
            push_str(&mut out, memory_type.as_str());
        },
        ToolCall::ScriptTool { name, args } => {
            push_str(&mut out, name.as_str());
            push_str(&mut out, ": ");
            let parts = string_chars(args);
            let sp: Vec<char> = vec![' '];
            assert(sp@ =~= " "@) by {
                reveal_strlit(" ");
            }
            push_chars(&mut out, &join_chars(&parts, &sp));
        },
        ToolCall::CreateTool { name, desc, args, script_content } => {
            push_str(&mut out, "create_tool: name=");
            push_str(&mut out, name.as_str());
            push_str(&mut out, " desc=\"");
            push_str(&mut out, desc.as_str());
            push_str(&mut out, "\" args=\"");
            push_str(&mut out, args.as_str());
            push_str(&mut out, "\" (content: \"");
            push_chars(&mut out, &snippet_of(script_content.as_str()));
            push_str(&mut out, "\")");
        },
    }
    string_of(&out)
}

/// Whether the first 30 bytes of a text longer than that end between
/// characters.
fn snippet_cut_ok_exec(s: &str) -> (r: bool)
    ensures
        r == snippet_cut_ok(s@),
{
    let v = chars_of(s);
    let k = fit_chars_exec(&v, 30);
    proof {
        lemma_fit_chars_whole(v@, 30);
    }
    if k < v.len() {
        let head = slice_chars(&v, 0, k);
        assert(head@ =~= v@.take(k as int));
        crate::text::utf8_len_chars(&head) == 30
    } else {
        true
    }
}

/// Whether the text of a tool call can be written: its content snippet, if
/// it has one, can be cut at 30 bytes.
pub fn call_text_cut_ok(call: &ToolCall) -> (r: bool)
    ensures
        r == call_text_ok(call@),
{
    match call {
        ToolCall::WriteFile { content, .. } => snippet_cut_ok_exec(content.as_str()),
        ToolCall::WriteMemory { content, .. } => snippet_cut_ok_exec(content.as_str()),
        ToolCall::CreateTool { script_content, .. } => snippet_cut_ok_exec(script_content.as_str()),
        _ => true,
    }
}

/// The characters of each string.
pub fn string_chars(v: &Vec<String>) -> (r: Vec<Vec<char>>)
    ensures
        views(r@) == string_views(v@),
{
    let mut r: Vec<Vec<char>> = Vec::new();
    let mut i: usize = 0;
    while i < v.len()
        invariant
            i <= v.len(),
            views(r@) == string_views(v@).take(i as int),
        decreases v.len() - i,
    {
        let c = chars_of(v[i].as_str());
        proof {
            crate::text::lemma_views_push(r@, c);
        }
        r.push(c);
        assert(string_views(v@).take(i + 1) =~= string_views(v@).take(i as int).push(v@[i as int]@));
        i = i + 1;
    }
    assert(string_views(v@).take(v.len() as int) =~= string_views(v@));
    r
}

// ---------------------------------------------------------------------
// Custom tools
// ---------------------------------------------------------------------

/// Why a session operation failed.
#[derive(Debug, PartialEq, Eq, Clone)]
pub enum SessionError {
    /// A tool header lacks a name, a description or an argument list.
    InvalidToolHeader,
}

impl SessionError {
    /// The message that describes the error.
    pub fn message(&self) -> (r: String)
        ensures
            r@ == "Invalid tool header: missing name, desc, or args"@,
    {
        string_of(&chars_of("Invalid tool header: missing name, desc, or args"))
    }
}

/// The name, description and argument list of a tool header such as
/// `name=grep desc="Search" args="pattern path"`; each must be present and
/// not empty.
pub fn parse_tool_header(header: &str) -> (r: Result<(String, String, String), SessionError>)
    ensures
        match r {
            Ok((n, d, a)) => (n@, d@, a@) == key_values(header@) && n@.len() > 0 && d@.len() > 0
                && a@.len() > 0,
            Err(e) => e == SessionError::InvalidToolHeader && (key_values(header@).0.len() == 0
                || key_values(header@).1.len() == 0 || key_values(header@).2.len() == 0),
        },
{
    let h = chars_of(header);
    let (name, desc, args) = scan_key_values(&h);
    if name.len() == 0 || desc.len() == 0 || args.len() == 0 {
        return Err(SessionError::InvalidToolHeader);
    }
    Ok((string_of(&name), string_of(&desc), string_of(&args)))
}

/// The marker of a tool header line.
pub open spec fn header_marker() -> Seq<char> {
    "## TOOL:"@
}

/// The index of the first line, from `i` on, whose trimmed text starts with
/// the header marker.
pub open spec fn header_line_from(ls: Seq<Seq<char>>, i: int) -> Option<int>
    decreases ls.len() - i,
{
    if i < 0 || i >= ls.len() {
        None
    } else if starts_with(trim(ls[i]), header_marker()) {
        Some(i)
    } else {
        header_line_from(ls, i + 1)
    }
}

/// The header of a tool script: the trimmed rest of its first header line,
/// after the marker and the character that follows it.
pub open spec fn tool_header(content: Seq<char>) -> Option<Seq<char>> {
    match header_line_from(lines(content), 0) {
        Some(i) => Some(trim(trim(lines(content)[i]).skip(9))),
        None => None,
    }
}

/// Whether the header line, if there is one, can be cut after the marker
/// and the character that follows it: it goes on, with a one-byte
/// character.
pub open spec fn tool_header_ok(content: Seq<char>) -> bool {
    match header_line_from(lines(content), 0) {
        Some(i) => trim(lines(content)[i]).len() > 8 && char_utf8_len(trim(lines(content)[i])[8])
            == 1,
        None => true,
    }
}

/// The tool name of a script's file name: without the `tool_` prefix and
/// the `.sh` suffix, or the file name as it is when it lacks either.
pub open spec fn name_stem(f: Seq<char>) -> Seq<char> {
    if ends_with(f, ".sh"@) && starts_with(f.take(f.len() - 3), "tool_"@) {
        f.take(f.len() - 3).skip(5)
    } else {
        f
    }
}

/// Whether a script's header line, if it has one, can be cut after the
/// marker and the character that follows it.
pub fn tool_header_cut_ok(content: &str) -> (r: bool)
    ensures
        r == tool_header_ok(content@),
{
    let c = chars_of(content);
    let ls = lines_of(&c);
    let ghost lv = views(ls@);
    let mut i: usize = 0;
    while i < ls.len()
        invariant
            i <= ls.len(),
            lv == views(ls@),
            lv == lines(c@),
            c@ == content@,
            header_line_from(lv, 0) == header_line_from(lv, i as int),
        decreases ls.len() - i,
    {
        let t = trim_chars(&ls[i]);
        assert(t@ == trim(lv[i as int]));
        if starts_with_str(&t, "## TOOL:") {
            return t.len() > 8 && len_utf8(t[8]) == 1;
        }
        i = i + 1;
    }
    true
}

/// The header of a tool script, if it has one.
pub fn tool_header_of(content: &str) -> (r: Option<String>)
    requires
        tool_header_ok(content@),
    ensures
        match r {
            Some(h) => tool_header(content@) == Some(h@),
            None => tool_header(content@) is None,
        },
{
    let c = chars_of(content);
    let ls = lines_of(&c);
    let ghost lv = views(ls@);
    let mut i: usize = 0;
    while i < ls.len()
        invariant
            i <= ls.len(),
            lv == views(ls@),
            lv == lines(c@),
            c@ == content@,
            tool_header_ok(content@),
            header_line_from(lv, 0) == header_line_from(lv, i as int),
        decreases ls.len() - i,
    {
        let t = trim_chars(&ls[i]);
        assert(t@ == trim(lv[i as int]));
        if starts_with_str(&t, "## TOOL:") {
            proof {
                reveal_strlit("## TOOL:");
            }
            let rest = slice_chars(&t, 9, t.len());
            assert(rest@ =~= t@.skip(9));
            return Some(string_of(&trim_chars(&rest)));
        }
        i = i + 1;
    }
    None
}

/// The tool name of a script's file name: without the `tool_` prefix and
/// the `.sh` suffix, or the file name as it is when it lacks either.
pub fn name_stem_of(file_name: &str) -> (r: String)
    ensures
        r@ == name_stem(file_name@),
{
    let f = chars_of(file_name);
    let suffix = chars_of(".sh");
    if ends_with_chars(&f, &suffix) {
        proof {
            reveal_strlit(".sh");
        }
        let base = slice_chars(&f, 0, f.len() - 3);
        assert(base@ =~= f@.take(f@.len() - 3));
        if starts_with_str(&base, "tool_") {
            proof {
                reveal_strlit("tool_");
            }
            let stem = slice_chars(&base, 5, base.len());
            assert(stem@ =~= base@.skip(5));
            return string_of(&stem);
        }
    }
    string_of(&f)
}

/// The tool a script in `./prime/` defines: read from its header, and kept
/// when the header names the tool as the file does. A script without a
/// header defines none; a header that lacks a field is an error.
pub fn tool_from_script(file_name: &str, path: &str, content: &str) -> (r: Result<
    Option<DiscoveredTool>,
    SessionError,
>)
    requires
        tool_header_ok(content@),
    ensures
        tool_header(content@) is None ==> r matches Ok(None),
        tool_header(content@) matches Some(h) ==> {
            let (n, d, a) = key_values(h);
            if n.len() == 0 || d.len() == 0 || a.len() == 0 {
                r == Err::<Option<DiscoveredTool>, SessionError>(SessionError::InvalidToolHeader)
            } else if n == name_stem(file_name@) {
                r matches Ok(Some(t)) && t.name@ == n && t.desc@ == d && t.args@ == a && t.path@
                    == path@
            } else {
                r matches Ok(None)
            }
        },
{
    match tool_header_of(content) {
        None => Ok(None),
        Some(h) => {
            let (n, d, a) = match parse_tool_header(h.as_str()) {
                Ok(x) => x,
                Err(e) => {
                    return Err(e);
                },
            };
            let stem = name_stem_of(file_name);
            if eq_chars(&chars_of(n.as_str()), &chars_of(stem.as_str())) {
                Ok(
                    Some(
                        DiscoveredTool {
                            name: n,
                            desc: d,
                            args: a,
                            path: string_of(&chars_of(path)),
                        },
                    ),
                )
            } else {
                Ok(None)
            }
        },
    }
}

/// The file name of a custom tool's script.
pub open spec fn script_file(name: Seq<char>) -> Seq<char> {
    "tool_"@ + name + ".sh"@
}

/// The command that runs a custom tool's script at `path` with its
/// arguments, separated by spaces.
pub open spec fn script_command(path: Seq<char>, args: Seq<Seq<char>>) -> Seq<char> {
    if args.len() == 0 {
        path
    } else {
        path + " "@ + join(args, " "@)
    }
}

/// The file name of a custom tool's script.
pub fn script_file_name(name: &str) -> (r: String)
    ensures
        r@ == script_file(name@),
{
    let mut v = chars_of("tool_");
    push_str(&mut v, name);
    push_str(&mut v, ".sh");
    string_of(&v)
}

/// The command that runs a custom tool's script at `path` with its
/// arguments, separated by spaces.
pub fn script_command_for(path: &str, args: &Vec<String>) -> (r: String)
    ensures
        r@ == script_command(path@, string_views(args@)),
{
    let mut v = chars_of(path);
    if args.len() > 0 {
        push_str(&mut v, " ");
        let sp: Vec<char> = vec![' '];
        assert(sp@ =~= " "@) by {
            reveal_strlit(" ");
        }
        push_chars(&mut v, &join_chars(&string_chars(args), &sp));
    }
    string_of(&v)
}

/// Whether a tool call needs the user's confirmation: a shell command or a
/// custom tool's command that contains, ignoring case, one of the patterns.
pub open spec fn destructive(call: ToolCallView, patterns: Seq<Seq<char>>) -> bool {
    match call {
        ToolCallView::Shell { command } => asks_first(command, patterns),
        ToolCallView::ScriptTool { name, args } => asks_first(
            script_command("./prime/"@ + script_file(name), args),
            patterns,
        ),
        _ => false,
    }
}

/// Whether a tool call needs the user's confirmation: a shell command or a
/// custom tool's command that contains, ignoring case, one of the patterns.
pub fn is_tool_destructive(call: &ToolCall, patterns: &Vec<String>) -> (r: bool)
    ensures
        r == destructive(call@, patterns@.map_values(|s: String| s@)),
{
    match call {
        ToolCall::Shell { command } => is_ask_me_before_command(command.as_str(), patterns),
        ToolCall::ScriptTool { name, args } => {
            let mut path = chars_of("./prime/");
            push_str(&mut path, script_file_name(name.as_str()).as_str());
            let path = string_of(&path);
            let cmd = script_command_for(path.as_str(), args);
            is_ask_me_before_command(cmd.as_str(), patterns)
        },
        _ => false,
    }
}

/// The script that `create_tool` writes: a shebang line, the tool's header
/// line, and the given content.
pub open spec fn tool_script(name: Seq<char>, desc: Seq<char>, args: Seq<char>, content: Seq<char>) -> Seq<
    char,
> {
    "#!/bin/bash\n"@ + "## TOOL: name="@ + name + " desc=\""@ + desc + "\" args=\""@ + args + "\"\n"@
        + content
}

/// The script that `create_tool` writes: a shebang line, the tool's header
/// line, and the given content.
pub fn tool_script_text(name: &str, desc: &str, args: &str, content: &str) -> (r: String)
    ensures
        r@ == tool_script(name@, desc@, args@, content@),
{
    let mut v = chars_of("#!/bin/bash\n");
    push_str(&mut v, "## TOOL: name=");
    push_str(&mut v, name);
    push_str(&mut v, " desc=\"");
    push_str(&mut v, desc);
    push_str(&mut v, "\" args=\"");
    push_str(&mut v, args);
    push_str(&mut v, "\"\n");
    push_str(&mut v, content);
    string_of(&v)
}

// ---------------------------------------------------------------------
// Carrying out a tool call
// ---------------------------------------------------------------------

/// What carrying out a tool call gave, as the file system, the shell and the
/// memory files answered.
#[derive(Debug, Clone)]
pub enum ToolEffect {
    /// The working directory is now the given directory.
    DirChanged(String),
    /// The path to change to is no directory.
    NotADirectory(String),
    /// The directory could not be resolved: its path and the error.
    DirUnresolved(String, String),
    /// A command ran: its exit code and output.
    Ran(i32, String),
    /// A command could not be started: the error.
    NotRun(String),
    /// A file was read: the text and whether it was cut short.
    FileRead(String, bool),
    /// A file could not be read: its path and the error.
    ReadFailed(String, String),
    /// A file was written: its path.
    Written(String),
    /// A file could not be written: its path and the error.
    WriteFailed(String, String),
    /// A directory was listed: its entries.
    Listed(Vec<String>),
    /// A directory could not be listed: its path and the error.
    ListFailed(String, String),
    /// A memory was written or cleared.
    MemoryDone,
    /// A memory could not be written or cleared: the error.
    MemoryFailed(String),
    /// A custom tool's script does not exist: its path.
    ScriptMissing(String),
    /// A new tool's script was written: its path.
    ToolCreated(String),
    /// A new tool's script could not be written: its path and the error.
    ToolCreateFailed(String, String),
}

/// Whether an effect is one that the tool call can have.
pub open spec fn effect_fits(call: ToolCallView, effect: ToolEffect) -> bool {
    match call {
        ToolCallView::ChangeDir { .. } => effect is DirChanged || effect is NotADirectory
            || effect is DirUnresolved,
        ToolCallView::Shell { .. } => effect is Ran || effect is NotRun,
        ToolCallView::ReadFile { .. } => effect is FileRead || effect is ReadFailed,
        ToolCallView::WriteFile { .. } => effect is Written || effect is WriteFailed,
        ToolCallView::ListDir { .. } => effect is Listed || effect is ListFailed,
        ToolCallView::WriteMemory { .. } => effect is MemoryDone || effect is MemoryFailed,
        ToolCallView::ClearMemory { .. } => effect is MemoryDone || effect is MemoryFailed,
        ToolCallView::ScriptTool { .. } => effect is ScriptMissing || effect is Ran
            || effect is NotRun,
        ToolCallView::CreateTool { .. } => effect is ToolCreated || effect is ToolCreateFailed,
    }
}

/// Whether a tool call succeeded, and the output reported for it.
pub open spec fn outcome(call: ToolCallView, effect: ToolEffect) -> (bool, Seq<char>) {
    match effect {
        ToolEffect::DirChanged(d) => (true, "Changed working directory to "@ + d@),
        ToolEffect::NotADirectory(p) => (false, "Directory not found: "@ + p@),
        ToolEffect::DirUnresolved(p, e) => (false, "Failed to canonicalize path '"@ + p@ + "': "@
            + e@),
        ToolEffect::Ran(code, out) => if code == 0 {
            (true, out@)
        } else if call is Shell {
            if code == -1 {
                (false, out@)
            } else {
                (false, "Command failed with exit code "@ + signed_decimal(code as int)
                    + "\nOutput:\n"@ + out@)
            }
        } else {
            (false, "Script failed with exit code "@ + signed_decimal(code as int) + "\nOutput:\n"@
                + out@)
        },
        ToolEffect::NotRun(e) => if call is Shell {
            (false, "Failed to execute command: "@ + e@)
        } else {
            (false, "Failed to execute script: "@ + e@)
        },
        ToolEffect::FileRead(c, truncated) => if truncated {
            (true, c@ + "\nNote: File content was truncated"@)
        } else {
            (true, c@)
        },
        ToolEffect::ReadFailed(p, e) => (false, "Failed to read file '"@ + p@ + "': "@ + e@),
        ToolEffect::Written(p) => (true, "Successfully wrote to "@ + p@),
        ToolEffect::WriteFailed(p, e) => (false, "Failed to write file '"@ + p@ + "': "@ + e@),
        ToolEffect::Listed(items) => if items.len() == 0 {
            (true, "Directory is empty"@)
        } else {
            (true, join(string_views(items@), "\n"@))
        },
        ToolEffect::ListFailed(p, e) => (false, "Failed to list directory '"@ + p@ + "': "@ + e@),
        ToolEffect::MemoryDone => match call {
            ToolCallView::WriteMemory { memory_type, .. } => (true, "Successfully wrote to "@
                + memory_type + " memory"@),
            ToolCallView::ClearMemory { memory_type } => (true, "Successfully cleared "@
                + memory_type + " memory"@),
            _ => (true, Seq::empty()),
        },
        ToolEffect::MemoryFailed(e) => match call {
            ToolCallView::WriteMemory { memory_type, .. } => (false, "Failed to write to "@
                + memory_type + " memory: "@ + e@),
            ToolCallView::ClearMemory { memory_type } => (false, "Failed to clear "@ + memory_type
                + " memory: "@ + e@),
            _ => (false, Seq::empty()),
        },
        ToolEffect::ScriptMissing(p) => (false, "Script not found: "@ + p@),
        ToolEffect::ToolCreated(p) => match call {
            ToolCallView::CreateTool { name, .. } => (true, "Created and loaded new tool: "@ + name
                + " at "@ + p@),
            _ => (true, Seq::empty()),
        },
        ToolEffect::ToolCreateFailed(p, e) => (false, "Failed to create tool '"@ + p@ + "': "@
            + e@),
    }
}

/// Appends `a` + `b` + `c` + `d`.
fn push4(v: &mut Vec<char>, a: &str, b: &str, c: &str, d: &str)
    ensures
        final(v)@ == old(v)@ + a@ + b@ + c@ + d@,
{
    push_str(v, a);
    push_str(v, b);
    push_str(v, c);
    push_str(v, d);
}

/// The report of a failed command or script: its exit code and output.
fn exit_report(what: &str, code: i32, out: &str) -> (r: Vec<char>)
    ensures
        r@ == what@ + " failed with exit code "@ + signed_decimal(code as int) + "\nOutput:\n"@
            + out@,
{
    let mut v = chars_of(what);
    push_str(&mut v, " failed with exit code ");
    push_chars(&mut v, &i32_decimal_chars(code));
    push_str(&mut v, "\nOutput:\n");
    push_str(&mut v, out);
    v
}

/// Whether a tool call succeeded, and the output reported for it, from what
/// carrying it out gave.
pub fn tool_outcome(call: &ToolCall, effect: &ToolEffect) -> (r: (bool, String))
    requires
        effect_fits(call@, *effect),
    ensures
        (r.0, r.1@) == outcome(call@, *effect),
{
    let mut v: Vec<char> = Vec::new();
    let ok: bool;
    match effect {
        ToolEffect::DirChanged(d) => {
            push4(&mut v, "Changed working directory to ", d.as_str(), "", "");
            ok = true;
        },
        ToolEffect::NotADirectory(p) => {
            push4(&mut v, "Directory not found: ", p.as_str(), "", "");
            ok = false;
        },
        ToolEffect::DirUnresolved(p, e) => {
            push4(&mut v, "Failed to canonicalize path '", p.as_str(), "': ", e.as_str());
            ok = false;
        },
        ToolEffect::Ran(code, out) => {
            if *code == 0 {
                push_str(&mut v, out.as_str());
                ok = true;
            } else {
                let is_shell = match call {
                    ToolCall::Shell { .. } => true,
                    _ => false,
                };
                if is_shell && *code == -1 {
                    push_str(&mut v, out.as_str());
                } else if is_shell {
                    v = exit_report("Command", *code, out.as_str());
                    proof {
                        reveal_strlit("Command");
                        reveal_strlit(" failed with exit code ");
                        reveal_strlit("Command failed with exit code ");
                    }
                    assert(v@ =~= "Command failed with exit code "@ + signed_decimal(*code as int)
                        + "\nOutput:\n"@ + out@);
                } else {
                    v = exit_report("Script", *code, out.as_str());
                    proof {
                        reveal_strlit("Script");
                        reveal_strlit(" failed with exit code ");
                        reveal_strlit("Script failed with exit code ");
                    }
                    assert(v@ =~= "Script failed with exit code "@ + signed_decimal(*code as int)
                        + "\nOutput:\n"@ + out@);
                }
                ok = false;
            }
        },
        ToolEffect::NotRun(e) => {
            match call {
                ToolCall::Shell { .. } => push_str(&mut v, "Failed to execute command: "),
                _ => push_str(&mut v, "Failed to execute script: "),
            }
            push_str(&mut v, e.as_str());
            ok = false;
        },
        ToolEffect::FileRead(c, truncated) => {
            push_str(&mut v, c.as_str());
            if *truncated {
                push_str(&mut v, "\nNote: File content was truncated");
            }
            ok = true;
        },
        ToolEffect::ReadFailed(p, e) => {
            push4(&mut v, "Failed to read file '", p.as_str(), "': ", e.as_str());
            ok = false;
        },
        ToolEffect::Written(p) => {
            push4(&mut v, "Successfully wrote to ", p.as_str(), "", "");
            ok = true;
        },
        ToolEffect::WriteFailed(p, e) => {
            push4(&mut v, "Failed to write file '", p.as_str(), "': ", e.as_str());
            ok = false;
        },
        ToolEffect::Listed(items) => {
            if items.len() == 0 {
                push_str(&mut v, "Directory is empty");
            } else {
                let nl: Vec<char> = vec!['\n'];
                assert(nl@ =~= "\n"@) by {
                    reveal_strlit("\n");
                }
                v = join_chars(&string_chars(items), &nl);
            }
            ok = true;
        },
        ToolEffect::ListFailed(p, e) => {
            push4(&mut v, "Failed to list directory '", p.as_str(), "': ", e.as_str());
            ok = false;
        },
        ToolEffect::MemoryDone => {
            match call {
                ToolCall::WriteMemory { memory_type, .. } => push4(
                    &mut v,
                    "Successfully wrote to ",
                    memory_type.as_str(),
                    " memory",
                    "",
                ),
                ToolCall::ClearMemory { memory_type } => push4(
                    &mut v,
                    "Successfully cleared ",
                    memory_type.as_str(),
                    " memory",
                    "",
                ),
                _ => {},
            }
            ok = true;
        },
        ToolEffect::MemoryFailed(e) => {
            match call {
                ToolCall::WriteMemory { memory_type, .. } => push4(
                    &mut v,
                    "Failed to write to ",
                    memory_type.as_str(),
                    " memory: ",
                    e.as_str(),
                ),
                ToolCall::ClearMemory { memory_type } => push4(
                    &mut v,
                    "Failed to clear ",
                    memory_type.as_str(),
                    " memory: ",
                    e.as_str(),
                ),
                _ => {},
            }
            ok = false;
        },
        ToolEffect::ScriptMissing(p) => {
            push4(&mut v, "Script not found: ", p.as_str(), "", "");
            ok = false;
        },
        ToolEffect::ToolCreated(p) => {
            match call {
                ToolCall::CreateTool { name, .. } => push4(
                    &mut v,
                    "Created and loaded new tool: ",
                    name.as_str(),
                    " at ",
                    p.as_str(),
                ),
                _ => {},
            }
            ok = true;
        },
        ToolEffect::ToolCreateFailed(p, e) => {
            push4(&mut v, "Failed to create tool '", p.as_str(), "': ", e.as_str());
            ok = false;
        },
    }
    proof {
        reveal_strlit("");
    }
    (ok, string_of(&v))
}

/// The result of a tool call: its text, whether it succeeded and its output.
pub fn tool_result(call: &ToolCall, effect: &ToolEffect) -> (r: ToolExecutionResult)
    requires
        effect_fits(call@, *effect),
        call_text_ok(call@),
    ensures
        r.tool_call_str@ == call_text(call@),
        (r.success, r.output@) == outcome(call@, *effect),
{
    let (success, output) = tool_outcome(call, effect);
    ToolExecutionResult { tool_call_str: tool_call_text(call), success, output }
}

/// The lines shown for a tool's output: each line of the trimmed output
/// after a bar.
pub fn output_lines(output: &str) -> (r: Vec<String>)
    ensures
        r@.len() == lines(trim(output@)).len(),
        forall|i: int| 0 <= i < r@.len() ==> #[trigger] r@[i]@ == "│ "@ + lines(trim(output@))[i],
{
    let ls = lines_of(&trim_chars(&chars_of(output)));
    let mut r: Vec<String> = Vec::new();
    let mut i: usize = 0;
    while i < ls.len()
        invariant
            i <= ls.len(),
            views(ls@) == lines(trim(output@)),
            r@.len() == i,
            forall|j: int| 0 <= j < i ==> #[trigger] r@[j]@ == "│ "@ + views(ls@)[j],
        decreases ls.len() - i,
    {
        let mut v = chars_of("│ ");
        push_chars(&mut v, &ls[i]);
        r.push(string_of(&v));
        i = i + 1;
    }
    r
}

// ---------------------------------------------------------------------
// The turns of a request
// ---------------------------------------------------------------------

/// The most tool turns that one request may take.
pub const MAX_CONSECUTIVE_TOOL_TURNS: usize = 10;

/// The line that announces a tool call in the plan shown to the user.
pub open spec fn action_text(c: ToolCallView) -> Seq<char> {
    "┃ "@ + match c {
        ToolCallView::Shell { command } => command,
        ToolCallView::ReadFile { path, lines } => match lines {
            Some((s, e)) => "read_file: "@ + path + " lines="@ + decimal(s as nat) + "-"@ + decimal(
                e as nat,
            ),
            None => "read_file: "@ + path,
        },
        ToolCallView::WriteFile { path, .. } => "write_file: "@ + path,
        ToolCallView::ListDir { path } => "list_dir: "@ + path,
        ToolCallView::ChangeDir { path } => "cd: "@ + path,
        ToolCallView::WriteMemory { memory_type, .. } => "write_memory: "@ + memory_type,
        ToolCallView::ClearMemory { memory_type } => "clear_memory: "@ + memory_type,
        ToolCallView::ScriptTool { name, args } => name + ": "@ + join(args, " "@),
        ToolCallView::CreateTool { name, desc, args, .. } => "create_tool: name="@ + name
            + " desc=\""@ + desc + "\" args=\""@ + args + "\""@,
    }
}

/// The line that announces a tool call in the plan shown to the user.
pub fn action_line(call: &ToolCall) -> (r: String)
    ensures
        r@ == action_text(call@),
{
    let mut out = chars_of("┃ ");
    match call {
        ToolCall::Shell { command } => push_str(&mut out, command.as_str()),
        ToolCall::ReadFile { path, lines } => {
            push_str(&mut out, "read_file: ");
            push_str(&mut out, path.as_str());
            match lines {
                Some((s, e)) => {
                    push_str(&mut out, " lines=");
                    push_chars(&mut out, &decimal_chars(*s));
                    push_str(&mut out, "-");
                    push_chars(&mut out, &decimal_chars(*e));
                },
                None => {},
            }
        },
        ToolCall::WriteFile { path, .. } => {
            push_str(&mut out, "write_file: ");
            push_str(&mut out, path.as_str());
        },
        ToolCall::ListDir { path } => {
            push_str(&mut out, "list_dir: ");
            push_str(&mut out, path.as_str());
        },
        ToolCall::ChangeDir { path } => {
            push_str(&mut out, "cd: ");
            push_str(&mut out, path.as_str());
        },
        ToolCall::WriteMemory { memory_type, .. } => {
            push_str(&mut out, "write_memory: ");
            push_str(&mut out, memory_type.as_str());
        },
        ToolCall::ClearMemory { memory_type } => {
            push_str(&mut out, "clear_memory: ");
            push_str(&mut out, memory_type.as_str());
        },
        ToolCall::ScriptTool { name, args } => {
            push_str(&mut out, name.as_str());
            push_str(&mut out, ": ");
            let sp: Vec<char> = vec![' '];
            assert(sp@ =~= " "@) by {
                reveal_strlit(" ");
            }
            push_chars(&mut out, &join_chars(&string_chars(args), &sp));
        },
        ToolCall::CreateTool { name, desc, args, .. } => {
            push_str(&mut out, "create_tool: name=");
            push_str(&mut out, name.as_str());
            push_str(&mut out, " desc=\"");
            push_str(&mut out, desc.as_str());
            push_str(&mut out, "\" args=\"");
            push_str(&mut out, args.as_str());
            push_str(&mut out, "\"");
        },
    }
    string_of(&out)
}

/// What to do with a response of the model.
#[derive(Debug, PartialEq, Eq, Clone, Copy)]
pub enum TurnStep {
    /// The response calls no tool: show its text, in a box when actions were
    /// shown before, and stop.
    Answer { boxed: bool },
    /// Show the plan and carry out its tool calls: after the user's
    /// confirmation when `confirm` is set, else after a short pause.
    Act { confirm: bool },
}

/// Whether a plan needs the user's confirmation: one of its calls does.
pub open spec fn plan_needs_confirmation(calls: Seq<ToolCallView>, patterns: Seq<Seq<char>>) -> bool {
    exists|i: int| 0 <= i < calls.len() && destructive(#[trigger] calls[i], patterns)
}

/// Whether one of the tool calls needs the user's confirmation.
pub fn any_destructive(calls: &Vec<ToolCall>, patterns: &Vec<String>) -> (r: bool)
    ensures
        r == plan_needs_confirmation(call_views(calls@), patterns@.map_values(|s: String| s@)),
{
    let ghost pats = patterns@.map_values(|s: String| s@);
    let mut i: usize = 0;
    while i < calls.len()
        invariant
            i <= calls.len(),
            pats == patterns@.map_values(|s: String| s@),
            forall|j: int| 0 <= j < i ==> !destructive(#[trigger] call_views(calls@)[j], pats),
        decreases calls.len() - i,
    {
        if is_tool_destructive(&calls[i], patterns) {
            assert(call_views(calls@)[i as int] == calls@[i as int]@);
            return true;
        }
        assert(call_views(calls@)[i as int] == calls@[i as int]@);
        i = i + 1;
    }
    false
}

/// The state of one request: how many tool turns it took and whether a plan
/// was shown.
#[derive(Debug, Clone, Copy)]
pub struct RequestState {
    pub tool_turns: usize,
    pub shown_actions: bool,
}

impl RequestState {
    /// A request that has taken no turn yet.
    pub fn new() -> (r: Self)
        ensures
            r.tool_turns == 0,
            !r.shown_actions,
    {
        RequestState { tool_turns: 0, shown_actions: false }
    }

    /// Whether the request may ask the model again.
    pub fn may_continue(&self) -> (r: bool)
        ensures
            r == (self.tool_turns < MAX_CONSECUTIVE_TOOL_TURNS),
    {
        self.tool_turns < MAX_CONSECUTIVE_TOOL_TURNS
    }

    /// What to do with a response of the model; a response that calls tools
    /// counts as a tool turn, and asks for a confirmation when one of its
    /// calls needs it under the patterns.
    pub fn on_response(&mut self, parsed: &ParsedResponse, patterns: &Vec<String>) -> (r: TurnStep)
        requires
            old(self).tool_turns < MAX_CONSECUTIVE_TOOL_TURNS,
        ensures
            parsed.tool_calls.len() == 0 ==> (r == (TurnStep::Answer { boxed: old(self).shown_actions }))
                && *final(self) == *old(self),
            parsed.tool_calls.len() > 0 ==> r == (TurnStep::Act {
                confirm: plan_needs_confirmation(
                    call_views(parsed.tool_calls@),
                    patterns@.map_values(|s: String| s@),
                ),
            }) && final(self).tool_turns == old(self).tool_turns + 1 && final(self).shown_actions
                == old(self).shown_actions,
    {
        if parsed.tool_calls.len() == 0 {
            TurnStep::Answer { boxed: self.shown_actions }
        } else {
            self.tool_turns = self.tool_turns + 1;
            TurnStep::Act { confirm: any_destructive(&parsed.tool_calls, patterns) }
        }
    }

    /// Notes that the plan was confirmed and is being carried out.
    pub fn on_confirmed(&mut self)
        ensures
            final(self).shown_actions,
            final(self).tool_turns == old(self).tool_turns,
    {
        self.shown_actions = true;
    }
}

/// Whether the user's answer confirms a plan: "y" in either case, with
/// spaces around it allowed.
pub fn confirms(answer: &str) -> (r: bool)
    ensures
        r == (trim(answer@) == "y"@ || trim(answer@) == "Y"@),
{
    let t = trim_chars(&chars_of(answer));
    proof {
        reveal_strlit("y");
        reveal_strlit("Y");
    }
    let r = t.len() == 1 && (t[0] == 'y' || t[0] == 'Y');
    assert("y"@ =~= seq!['y']);
    assert("Y"@ =~= seq!['Y']);
    if t.len() == 1 {
        assert(t@ =~= seq![t@[0]]);
    }
    r
}

/// The lines of the answer's text as shown: wrapped to 68 columns after a
/// bar when it closes a box, else to 70 columns.
pub open spec fn answer_text_lines(text: Seq<char>, boxed: bool) -> Seq<Seq<char>> {
    if boxed {
        lines(join(textwrap_wrap(text, 68, false), "\n"@)).map_values(|l: Seq<char>| "┃"@ + l)
    } else {
        lines(join(textwrap_wrap(text, 70, false), "\n"@))
    }
}

/// The lines of the answer's text as shown: wrapped to 68 columns after a
/// bar when it closes a box, else to 70 columns.
pub fn answer_lines(text: &str, boxed: bool) -> (r: Vec<String>)
    ensures
        string_views(r@) == answer_text_lines(text@, boxed),
{
    let width: usize = if boxed { 68 } else { 70 };
    let wrapped = wrap_text(text, width, false);
    let nl: Vec<char> = vec!['\n'];
    assert(nl@ =~= "\n"@) by {
        reveal_strlit("\n");
    }
    let joined = join_chars(&string_chars(&wrapped), &nl);
    let ls = lines_of(&joined);
    let ghost target = answer_text_lines(text@, boxed);
    let mut r: Vec<String> = Vec::new();
    let mut i: usize = 0;
    while i < ls.len()
        invariant
            i <= ls.len(),
            views(ls@) == lines(join(textwrap_wrap(text@, width, false), "\n"@)),
            width == (if boxed { 68usize } else { 70usize }),
            target == answer_text_lines(text@, boxed),
            string_views(r@) == target.take(i as int),
        decreases ls.len() - i,
    {
        let line = if boxed {
            let mut v = chars_of("┃");
            push_chars(&mut v, &ls[i]);
            string_of(&v)
        } else {
            string_of(&ls[i])
        };
        proof {
            crate::text::lemma_string_views_push(r@, line);
        }
        r.push(line);
        assert(target.take(i + 1) =~= target.take(i as int).push(line@));
        i = i + 1;
    }
    assert(target.take(ls.len() as int) =~= target);
    r
}

// ---------------------------------------------------------------------
// Reports to the model
// ---------------------------------------------------------------------

/// The status word of a result.
pub open spec fn status_text(success: bool) -> Seq<char> {
    if success {
        "SUCCESS"@
    } else {
        "FAILURE"@
    }
}

/// The report of the result at index `i`.
pub open spec fn result_block(i: nat, r: ToolExecutionResult) -> Seq<char> {
    "<tool_output id=\""@ + decimal(i) + "\" for=\""@ + r.tool_call_str@ + "\" status=\""@
        + status_text(r.success) + "\">\n"@ + trim(r.output@) + "\n</tool_output>"@
}

/// The reports of the results, one after another on their own lines.
pub open spec fn results_text(rs: Seq<ToolExecutionResult>) -> Seq<char> {
    join(Seq::new(rs.len(), |i: int| result_block(i as nat, rs[i])), "\n"@)
}

/// The report of a failed tool call.
pub open spec fn failure_text(r: ToolExecutionResult) -> Seq<char> {
    "<tool_output for=\""@ + r.tool_call_str@ + "\" status=\"FAILURE\">\n"@ + trim(r.output@)
        + "\n</tool_output>"@
}

/// The report of the result at index `i`.
fn result_block_of(i: usize, r: &ToolExecutionResult) -> (v: Vec<char>)
    ensures
        v@ == result_block(i as nat, *r),
{
    let mut v = chars_of("<tool_output id=\"");
    push_chars(&mut v, &decimal_chars(i));
    push_str(&mut v, "\" for=\"");
    push_str(&mut v, r.tool_call_str.as_str());
    push_str(&mut v, "\" status=\"");
    if r.success {
        push_str(&mut v, "SUCCESS");
    } else {
        push_str(&mut v, "FAILURE");
    }
    push_str(&mut v, "\">\n");
    push_chars(&mut v, &trim_chars(&chars_of(r.output.as_str())));
    push_str(&mut v, "\n</tool_output>");
    v
}

/// The reports of the results of a plan's tool calls, for the model: each
/// numbered, with the call, its status and its trimmed output.
pub fn format_tool_results_for_llm(results: &Vec<ToolExecutionResult>) -> (r: String)
    ensures
        r@ == results_text(results@),
{
    let ghost blocks = Seq::new(results@.len(), |i: int| result_block(i as nat, results@[i]));
    let mut parts: Vec<Vec<char>> = Vec::new();
    let mut i: usize = 0;
    while i < results.len()
        invariant
            i <= results.len(),
            blocks == Seq::new(results@.len(), |i: int| result_block(i as nat, results@[i])),
            views(parts@) == blocks.take(i as int),
        decreases results.len() - i,
    {
        let b = result_block_of(i, &results[i]);
        proof {
            crate::text::lemma_views_push(parts@, b);
        }
        parts.push(b);
        assert(blocks.take(i + 1) =~= blocks.take(i as int).push(blocks[i as int]));
        i = i + 1;
    }
    assert(blocks.take(results.len() as int) =~= blocks);
    let nl: Vec<char> = vec!['\n'];
    assert(nl@ =~= "\n"@) by {
        reveal_strlit("\n");
    }
    string_of(&join_chars(&parts, &nl))
}

/// The report of a failed tool call, for the model.
pub fn format_tool_failure_for_llm(result: &ToolExecutionResult) -> (r: String)
    ensures
        r@ == failure_text(*result),
{
    let mut v = chars_of("<tool_output for=\"");
    push_str(&mut v, result.tool_call_str.as_str());
    push_str(&mut v, "\" status=\"FAILURE\">\n");
    push_chars(&mut v, &trim_chars(&chars_of(result.output.as_str())));
    push_str(&mut v, "\n</tool_output>");
    string_of(&v)
}

// ---------------------------------------------------------------------
// The conversation log
// ---------------------------------------------------------------------

/// The entry that the log gets for a titled text, with its time: a heading
/// and the trimmed text in a fence.
pub open spec fn log_entry_text(title: Seq<char>, timestamp: Seq<char>, content: Seq<char>) -> Seq<
    char,
> {
    "\n## "@ + title + " ("@ + timestamp + ")\n"@ + "```\n"@ + trim(content) + "\n"@ + "```\n"@
}

/// The entry that the log gets for a titled text, with its time: a heading
/// and the trimmed text in a fence.
pub fn log_entry(title: &str, timestamp: &str, content: &str) -> (r: String)
    ensures
        r@ == log_entry_text(title@, timestamp@, content@),
{
    let mut v = chars_of("\n## ");
    push_str(&mut v, title);
    push_str(&mut v, " (");
    push_str(&mut v, timestamp);
    push_str(&mut v, ")\n");
    push_str(&mut v, "```\n");
    push_chars(&mut v, &trim_chars(&chars_of(content)));
    push_str(&mut v, "\n");
    push_str(&mut v, "```\n");
    string_of(&v)
}

/// Who said a message of the conversation.
#[derive(Debug, PartialEq, Eq, Clone, Copy)]
pub enum Role {
    User,
    Assistant,
}

/// The role of a log section by its heading: the user's input, tool
/// reports and system notes are the user's; responses are the assistant's.
pub open spec fn role_of(header: Seq<char>) -> Option<Role> {
    if starts_with(header, "User Input"@) {
        Some(Role::User)
    } else if starts_with(header, "Prime Response"@) {
        Some(Role::Assistant)
    } else if starts_with(header, "Tool Results"@) || starts_with(header, "Tool Failure"@)
        || starts_with(header, "System"@) {
        Some(Role::User)
    } else {
        None
    }
}

/// The message of a log section, if it is one: its role by the heading on
/// its first line, and its text without the fence, trimmed and not empty.
pub open spec fn section_message(sec: Seq<char>) -> Option<(Role, Seq<char>)> {
    if trim(sec).len() == 0 {
        None
    } else {
        match find(sec, "\n"@) {
            None => None,
            Some(i) => match role_of(sec.take(i)) {
                None => None,
                Some(role) => {
                    let content = trim(
                        strip_trailing(strip_leading(sec.skip(i + 1), "```\n"@), "\n```"@),
                    );
                    if content.len() == 0 {
                        None
                    } else {
                        Some((role, content))
                    }
                },
            },
        }
    }
}

/// The messages of the log sections, in order.
pub open spec fn section_messages(secs: Seq<Seq<char>>) -> Seq<(Role, Seq<char>)>
    decreases secs.len(),
{
    if secs.len() == 0 {
        Seq::empty()
    } else {
        section_messages(secs.drop_last()) + match section_message(secs.last()) {
            Some(m) => seq![m],
            None => Seq::empty(),
        }
    }
}

/// The messages of a conversation log, the last `limit` of them when a
/// limit is given.
pub open spec fn history(log: Seq<char>, limit: Option<usize>) -> Seq<(Role, Seq<char>)> {
    let all = section_messages(split_on(log, "\n## "@));
    match limit {
        Some(n) => if all.len() > n {
            all.skip(all.len() - n)
        } else {
            all
        },
        None => all,
    }
}

/// The message of a log section, if it is one.
fn section_message_of(sec: &Vec<char>) -> (r: Option<(Role, String)>)
    ensures
        match r {
            Some((role, c)) => section_message(sec@) == Some((role, c@)),
            None => section_message(sec@) is None,
        },
{
    if trim_chars(sec).len() == 0 {
        return None;
    }
    let nl: Vec<char> = vec!['\n'];
    assert(nl@ =~= "\n"@) by {
        reveal_strlit("\n");
    }
    match find_chars(sec, &nl) {
        None => None,
        Some(i) => {
            assert(nl@.len() == 1);
            assert(occurs_at(sec@, nl@, i as int));
            assert(i + 1 <= sec@.len());
            assert(i + 1 <= sec.len());
            let header = slice_chars(sec, 0, i);
            assert(header@ =~= sec@.take(i as int));
            let body = slice_chars(sec, i + 1, sec.len());
            assert(body@ =~= sec@.skip(i + 1));
            let role = if starts_with_str(&header, "User Input") {
                Role::User
            } else if starts_with_str(&header, "Prime Response") {
                Role::Assistant
            } else if starts_with_str(&header, "Tool Results") || starts_with_str(
                &header,
                "Tool Failure",
            ) || starts_with_str(&header, "System") {
                Role::User
            } else {
                return None;
            };
            let content = trim_chars(
                &strip_trailing_chars(
                    &strip_leading_chars(&body, &chars_of("```\n")),
                    &chars_of("\n```"),
                ),
            );
            if content.len() == 0 {
                None
            } else {
                Some((role, string_of(&content)))
            }
        },
    }
}

/// The messages of a conversation log, oldest first: each section after a
/// `## ` heading whose title names a role, with its fenced text; the last
/// `limit` of them when a limit is given.
pub fn history_messages(log: &str, limit: Option<usize>) -> (r: Vec<(Role, String)>)
    ensures
        r@.map_values(|m: (Role, String)| (m.0, m.1@)) == history(log@, limit),
{
    let sep = chars_of("\n## ");
    proof {
        reveal_strlit("\n## ");
    }
    let secs = split_on_chars(&chars_of(log), &sep);
    let ghost sv = views(secs@);
    let mut all: Vec<(Role, String)> = Vec::new();
    let mut i: usize = 0;
    while i < secs.len()
        invariant
            i <= secs.len(),
            sv == views(secs@),
            sv == split_on(log@, "\n## "@),
            all@.map_values(|m: (Role, String)| (m.0, m.1@)) == section_messages(sv.take(i as int)),
        decreases secs.len() - i,
    {
        let m = section_message_of(&secs[i]);
        assert(sv.take(i + 1).drop_last() =~= sv.take(i as int));
        match m {
            Some(x) => {
                all.push(x);
                assert(all@.map_values(|m: (Role, String)| (m.0, m.1@)) =~= section_messages(
                    sv.take(i as int),
                ).push((x.0, x.1@)));
            },
            None => {},
        }
        i = i + 1;
    }
    assert(sv.take(secs.len() as int) =~= sv);
    let ghost whole = all@.map_values(|m: (Role, String)| (m.0, m.1@));
    match limit {
        Some(n) => {
            if all.len() > n {
                let start = all.len() - n;
                let mut kept: Vec<(Role, String)> = Vec::new();
                let mut j: usize = start;
                while j < all.len()
                    invariant
                        start <= j <= all.len(),
                        whole == all@.map_values(|m: (Role, String)| (m.0, m.1@)),
                        kept@.map_values(|m: (Role, String)| (m.0, m.1@)) == whole.subrange(
                            start as int,
                            j as int,
                        ),
                    decreases all.len() - j,
                {
                    let role = all[j].0;
                    let text = string_of(&chars_of(all[j].1.as_str()));
                    let item = (role, text);
                    assert(whole[j as int] == (all@[j as int].0, all@[j as int].1@));
                    assert((item.0, item.1@) == whole[j as int]);
                    let ghost before = kept@;
                    kept.push(item);
                    assert(kept@.map_values(|m: (Role, String)| (m.0, m.1@)) =~= before.map_values(
                        |m: (Role, String)| (m.0, m.1@),
                    ).push((item.0, item.1@)));
                    assert(kept@.map_values(|m: (Role, String)| (m.0, m.1@)) =~= whole.subrange(
                        start as int,
                        j + 1,
                    ));
                    j = j + 1;
                }
                assert(whole.subrange(start as int, all.len() as int) =~= whole.skip(start as int));
                kept
            } else {
                all
            }
        },
        None => all,
    }
}

// ---------------------------------------------------------------------
// The tool list
// ---------------------------------------------------------------------

/// The built-in tools, one line each, under a heading.
pub open spec fn builtin_tools_text() -> Seq<char> {
    "Built-in Tools:\n"@ + "- shell: Execute any shell command\n"@ + "- cd: Change working directory\n"@
        + "- read_file: Read file content (with optional line range)\n"@
        + "- write_file: Write to file (with optional append)\n"@ + "- list_dir: List directory contents\n"@
        + "- write_memory: Add to long/short-term memory\n"@ + "- clear_memory: Clear memory type\n"@
        + "- create_tool: Create a new self-extending tool script\n"@
        + "\nDiscovered Custom Tools (./prime/):\n"@
}

/// The line of a discovered tool.
pub open spec fn tool_line(t: DiscoveredTool) -> Seq<char> {
    "- "@ + t.name@ + ": "@ + t.desc@ + " (args: "@ + t.args@ + ", path: "@ + t.path@ + ")\n"@
}

/// The lines of the discovered tools, in order.
pub open spec fn tool_lines(ts: Seq<DiscoveredTool>) -> Seq<char>
    decreases ts.len(),
{
    if ts.len() == 0 {
        Seq::empty()
    } else {
        tool_lines(ts.drop_last()) + tool_line(ts.last())
    }
}

/// The list of tools: the built-in ones, then the discovered ones or a note
/// that there are none.
pub open spec fn tools_text(ts: Seq<DiscoveredTool>) -> Seq<char> {
    builtin_tools_text() + if ts.len() == 0 {
        "None found. Use create_tool to build your own!\n"@
    } else {
        tool_lines(ts)
    }
}

/// The list of tools: the built-in ones, then the discovered ones or a note
/// that there are none.
pub fn list_tools(tools: &Vec<DiscoveredTool>) -> (r: String)
    ensures
        r@ == tools_text(tools@),
{
    let mut out = chars_of("Built-in Tools:\n");
    push_str(&mut out, "- shell: Execute any shell command\n");
    push_str(&mut out, "- cd: Change working directory\n");
    push_str(&mut out, "- read_file: Read file content (with optional line range)\n");
    push_str(&mut out, "- write_file: Write to file (with optional append)\n");
    push_str(&mut out, "- list_dir: List directory contents\n");
    push_str(&mut out, "- write_memory: Add to long/short-term memory\n");
    push_str(&mut out, "- clear_memory: Clear memory type\n");
    push_str(&mut out, "- create_tool: Create a new self-extending tool script\n");
    push_str(&mut out, "\nDiscovered Custom Tools (./prime/):\n");
    let ghost head = out@;
    assert(head == builtin_tools_text());
    if tools.len() == 0 {
        push_str(&mut out, "None found. Use create_tool to build your own!\n");
    } else {
        let mut i: usize = 0;
        while i < tools.len()
            invariant
                i <= tools.len(),
                head == builtin_tools_text(),
                out@ == head + tool_lines(tools@.take(i as int)),
            decreases tools.len() - i,
        {
            let t = &tools[i];
            push_str(&mut out, "- ");
            push_str(&mut out, t.name.as_str());
            push_str(&mut out, ": ");
            push_str(&mut out, t.desc.as_str());
            push_str(&mut out, " (args: ");
            push_str(&mut out, t.args.as_str());
            push_str(&mut out, ", path: ");
            push_str(&mut out, t.path.as_str());
            push_str(&mut out, ")\n");
            assert(tools@.take(i + 1).drop_last() =~= tools@.take(i as int));
            i = i + 1;
        }
        assert(tools@.take(tools.len() as int) =~= tools@);
    }
    string_of(&out)
}

// ---------------------------------------------------------------------
// Laws
// ---------------------------------------------------------------------

/// The text of a shell, `list_dir`, `cd`, `clear_memory` or `read_file`
/// call whose argument has no whitespace around it, written as a block
/// line, parses back to the same call (a read's path being non-empty, and
/// without a range not holding " lines=" itself).
pub proof fn law_call_text_parses_back(c: ToolCallView)
    requires
        match c {
            ToolCallView::Shell { command } => trim(command) == command,
            ToolCallView::ListDir { path } => trim(path) == path,
            ToolCallView::ChangeDir { path } => trim(path) == path,
            ToolCallView::ClearMemory { memory_type } => trim(memory_type) == memory_type,
            ToolCallView::ReadFile { path, lines } => path.len() > 0 && trim(path) == path && (
            lines is None ==> rfind(path, " lines="@) is None),
            _ => false,
        },
    ensures
        calls_from(one_line_block(call_text(c)), 0) == Ok::<Seq<ToolCallView>, ParseErrorView>(
            seq![c],
        ),
{
    reveal_strlit("shell: ");
    reveal_strlit("list_dir: ");
    reveal_strlit("cd: ");
    reveal_strlit("clear_memory: ");
    reveal_strlit("shell");
    reveal_strlit("list_dir");
    reveal_strlit("cd");
    reveal_strlit("clear_memory");
    reveal_strlit(": ");
    match c {
        ToolCallView::Shell { command } => {
            assert("shell: "@ + command =~= "shell"@ + ": "@ + command);
            law_simple_tool_line_parses("shell"@, command);
        },
        ToolCallView::ListDir { path } => {
            assert("list_dir: "@ + path =~= "list_dir"@ + ": "@ + path);
            law_simple_tool_line_parses("list_dir"@, path);
        },
        ToolCallView::ChangeDir { path } => {
            assert("cd: "@ + path =~= "cd"@ + ": "@ + path);
            law_simple_tool_line_parses("cd"@, path);
        },
        ToolCallView::ClearMemory { memory_type } => {
            assert("clear_memory: "@ + memory_type =~= "clear_memory"@ + ": "@ + memory_type);
            law_simple_tool_line_parses("clear_memory"@, memory_type);
        },
        ToolCallView::ReadFile { path, lines } => {
            law_read_line_parses(path, lines);
            assert(call_text(c) =~= read_line_text(path, lines));
        },
        _ => {},
    }
}


/// A tool that `create_tool` writes is found again: the header of its
/// script is the header text of its name, description and argument list,
/// and that header reads back as the three, when the name is not empty and
/// holds no whitespace or quote, the other two are not empty and hold no
/// quote, and none of the three holds a line break.
pub proof fn law_created_tool_header_reads_back(
    name: Seq<char>,
    desc: Seq<char>,
    args: Seq<char>,
    content: Seq<char>,
)
    requires
        name.len() > 0,
        desc.len() > 0,
        args.len() > 0,
        forall|j: int| 0 <= j < name.len() ==> !is_ascii_ws(#[trigger] name[j]) && name[j] != '"',
        forall|j: int| 0 <= j < desc.len() ==> #[trigger] desc[j] != '"' && desc[j] != '\n',
        forall|j: int| 0 <= j < args.len() ==> #[trigger] args[j] != '"' && args[j] != '\n',
    ensures
        tool_header(tool_script(name, desc, args, content)) == Some(header_text(name, desc, args)),
        tool_header_ok(tool_script(name, desc, args, content)),
        key_values(header_text(name, desc, args)) == (name, desc, args),
{
    reveal_strlit("#!/bin/bash\n");
    reveal_strlit("## TOOL: name=");
    reveal_strlit(" desc=\"");
    reveal_strlit("\" args=\"");
    reveal_strlit("\"\n");
    reveal_strlit("name=");
    reveal_strlit("\"");
    reveal_strlit("## TOOL:");
    law_header_text_scans_back(name, desc, args);
    let h = header_text(name, desc, args);
    let l1 = "## TOOL: "@ + h;
    reveal_strlit("## TOOL: ");
    let shebang = "#!/bin/bash"@;
    reveal_strlit("#!/bin/bash");
    let s = tool_script(name, desc, args, content);
    assert(s =~= shebang + seq!['\n'] + l1 + seq!['\n'] + content);
    let n = name.len() as int;
    let d = desc.len() as int;
    let a = args.len() as int;
    assert(l1.len() == 30 + n + d + a);
    assert forall|j: int| 0 <= j < l1.len() implies l1[j] != '\n' by {
        if 14 <= j < 14 + n {
            assert(l1[j] == name[j - 14]);
            assert(!is_ascii_ws(name[j - 14]));
        } else if 21 + n <= j < 21 + n + d {
            assert(l1[j] == desc[j - 21 - n]);
        } else if 29 + n + d <= j < 29 + n + d + a {
            assert(l1[j] == args[j - 29 - n - d]);
        }
    }
    // the first line: the shebang
    crate::text::lemma_next_char_at(s, '\n', 0, 11);
    assert(s.subrange(0, 11) =~= shebang);
    // the second line: the header line
    assert forall|j: int| 12 <= j < 12 + l1.len() implies s[j] != '\n' by {
        assert(s[j] == l1[j - 12]);
    }
    crate::text::lemma_next_char_at(s, '\n', 12, 12 + l1.len() as int);
    assert(s.subrange(12, 12 + l1.len() as int) =~= l1);
    let ls = lines(s);
    assert(ls[0] == shebang);
    assert(lines_from(s, 12)[0] == l1);
    assert(ls[1] == l1);
    crate::text::lemma_trim_fixed(shebang);
    assert(!starts_with(shebang, header_marker())) by {
        assert(shebang.take(8)[1] != header_marker()[1]);
    }
    crate::text::lemma_trim_fixed(l1);
    assert(l1.take(8) =~= header_marker());
    assert(header_line_from(ls, 1) == Some(1int));
    assert(header_line_from(ls, 0) == Some(1int));
    assert(l1.skip(9) =~= h);
    assert(h[0] == 'n');
    assert(h.last() == '"');
    crate::text::lemma_trim_fixed(h);
    assert(l1[8] == ' ');
}


/// A response that is one action block holding the text of a shell,
/// `list_dir`, `cd`, `clear_memory` or `read_file` call parses back to that
/// call alone, with no plain text: when the call's argument has no
/// whitespace around it (a read's path not empty, and without a range not
/// holding " lines=" itself) and its text holds no line break or carriage
/// return.
pub proof fn law_fenced_call_parses_back(c: ToolCallView)
    requires
        match c {
            ToolCallView::Shell { command } => trim(command) == command,
            ToolCallView::ListDir { path } => trim(path) == path,
            ToolCallView::ChangeDir { path } => trim(path) == path,
            ToolCallView::ClearMemory { memory_type } => trim(memory_type) == memory_type,
            ToolCallView::ReadFile { path, lines } => path.len() > 0 && trim(path) == path && (
            lines is None ==> rfind(path, " lines="@) is None),
            _ => false,
        },
        forall|j: int|
            0 <= j < call_text(c).len() ==> #[trigger] call_text(c)[j] != '\n' && call_text(c)[j]
                != '\r',
    ensures
        parse_response("```primeactions\n"@ + call_text(c) + "\n```"@) == Ok::<
            (Seq<char>, Seq<ToolCallView>),
            ParseErrorView,
        >((Seq::<char>::empty(), seq![c])),
{
    reveal_strlit("shell: ");
    reveal_strlit("list_dir: ");
    reveal_strlit("cd: ");
    reveal_strlit("clear_memory: ");
    reveal_strlit("read_file: ");
    let line = call_text(c);
    assert(line.len() > 0 && !crate::text::is_ws(line[0]) && line[0] != '`') by {
        match c {
            ToolCallView::ReadFile { path, lines } => {
                match lines {
                    Some((a, b)) => {
                        reveal_strlit(" lines=");
                        reveal_strlit("-");
                        assert(line[0] == 'r');
                    },
                    None => assert(line[0] == 'r'),
                }
            },
            _ => {},
        }
    }
    assert(line.last() == line[line.len() - 1]);
    law_call_text_parses_back(c);
    lemma_one_line_response(line);
}


/// Whether an effect is a success of the tool: a directory changed to, a
/// command or script that exited with code 0, a file read, written or
/// listed, a memory written or cleared, a tool created.
pub open spec fn effect_succeeded(effect: ToolEffect) -> bool {
    match effect {
        ToolEffect::DirChanged(_) => true,
        ToolEffect::Ran(code, _) => code == 0,
        ToolEffect::FileRead(_, _) => true,
        ToolEffect::Written(_) => true,
        ToolEffect::Listed(_) => true,
        ToolEffect::MemoryDone => true,
        ToolEffect::ToolCreated(_) => true,
        _ => false,
    }
}

/// A tool call is reported as succeeded exactly when what carrying it out
/// gave is a success: a write, a read, a listing, a directory change, a
/// memory change, a created tool or a command that exited with 0 succeed;
/// every refusal, error and other exit code fails. (An exit code of 0 ends
/// up in the output unchanged.)
pub proof fn law_success_follows_effect(call: ToolCallView, effect: ToolEffect)
    requires
        effect_fits(call, effect),
    ensures
        outcome(call, effect).0 == effect_succeeded(effect),
        effect matches ToolEffect::Ran(code, out) ==> (code == 0 ==> outcome(call, effect).1 == out@),
{
}


/// The role that a log entry's title gives its message, for the titles the
/// session writes: the user's input, tool results and failures and system
/// notes speak as the user, the assistant's responses as the assistant.
pub open spec fn title_role(title: Seq<char>) -> Option<Role> {
    if title == "User Input"@ || title == "Tool Results"@ || title == "Tool Failure"@ || title
        == "System"@ {
        Some(Role::User)
    } else if title == "Prime Response"@ {
        Some(Role::Assistant)
    } else {
        None
    }
}

/// What trimming the start leaves starts with a character that is not
/// whitespace.
proof fn lemma_trim_start_first(s: Seq<char>)
    ensures
        crate::text::trim_start(s).len() > 0 ==> !crate::text::is_ws(crate::text::trim_start(s)[0]),
    decreases s.len(),
{
    if s.len() > 0 && crate::text::is_ws(s[0]) {
        lemma_trim_start_first(s.drop_first());
    }
}

/// What trimming the end leaves keeps the first character and ends with one
/// that is not whitespace.
proof fn lemma_trim_end_shape(s: Seq<char>)
    ensures
        crate::text::trim_end(s).len() > 0 ==> !crate::text::is_ws(crate::text::trim_end(s).last())
            && crate::text::trim_end(s)[0] == s[0],
    decreases s.len(),
{
    if s.len() > 0 && crate::text::is_ws(s.last()) {
        lemma_trim_end_shape(s.drop_last());
    }
}

/// The first line break of a text is where its first `c` is.
proof fn lemma_find_char(s: Seq<char>, c: char, i: int, k: int)
    requires
        0 <= i <= k < s.len(),
        s[k] == c,
        forall|j: int| i <= j < k ==> s[j] != c,
    ensures
        crate::text::find_from(s, seq![c], i) == Some(k),
    decreases k - i,
{
    if i < k {
        assert(!occurs_at(s, seq![c], i)) by {
            if occurs_at(s, seq![c], i) {
                assert(s.subrange(i, i + 1)[0] == s[i]);
            }
        }
        lemma_find_char(s, c, i + 1, k);
    } else {
        assert(s.subrange(k, k + 1) =~= seq![c]);
    }
}

/// A heading that starts with one of the session's titles has that title's
/// role.
proof fn lemma_role_of_title(title: Seq<char>, rest: Seq<char>)
    requires
        title_role(title) is Some,
    ensures
        role_of(title + rest) == title_role(title),
{
    reveal_strlit("User Input");
    reveal_strlit("Prime Response");
    reveal_strlit("Tool Results");
    reveal_strlit("Tool Failure");
    reveal_strlit("System");
    let h = title + rest;
    assert(h.take(title.len() as int) =~= title);
    assert(forall|p: Seq<char>, q: Seq<char>|
        #![trigger starts_with(p, q)]
        p.len() > 0 && q.len() > 0 && p[0] != q[0] ==> !starts_with(p, q)) by {
        assert forall|p: Seq<char>, q: Seq<char>|
            p.len() > 0 && q.len() > 0 && p[0] != q[0] implies !#[trigger] starts_with(p, q) by {
            if starts_with(p, q) {
                assert(p.take(q.len() as int)[0] == p[0]);
            }
        }
    }
    assert(h[0] == title[0]);
    if title == "Tool Failure"@ {
        assert(!starts_with(h, "Tool Results"@)) by {
            assert(h[5] == 'F');
            if starts_with(h, "Tool Results"@) {
                assert(h.take(12)[5] == "Tool Results"@[5]);
            }
        }
    }
}

/// A log entry written under one of the session's titles, whose text is not
/// blank and does not start with a backquote, is read back as one message
/// of that title's role: the entry's trimmed text, with the closing fence
/// mark that the reading leaves after it. So a tool failure, like a tool
/// result, reaches the model as the user's message.
pub proof fn law_logged_entry_is_message(title: Seq<char>, timestamp: Seq<char>, content: Seq<char>)
    requires
        title_role(title) is Some,
        forall|j: int| 0 <= j < timestamp.len() ==> #[trigger] timestamp[j] != '\n',
        trim(content).len() > 0,
        trim(content)[0] != '`',
    ensures
        section_message(log_entry_text(title, timestamp, content).skip(4)) == Some(
            (title_role(title)->0, trim(content) + "\n```"@),
        ),
{
    reveal_strlit("User Input");
    reveal_strlit("Prime Response");
    reveal_strlit("Tool Results");
    reveal_strlit("Tool Failure");
    reveal_strlit("System");
    reveal_strlit("\n## ");
    reveal_strlit(" (");
    reveal_strlit(")\n");
    reveal_strlit("```\n");
    reveal_strlit("\n");
    reveal_strlit("\n```");
    let tc = trim(content);
    let head = title + " ("@ + timestamp + ")"@;
    reveal_strlit(")");
    let body = "```\n"@ + tc + "\n"@ + "```\n"@;
    let sec = log_entry_text(title, timestamp, content).skip(4);
    assert(sec =~= head + seq!['\n'] + body);
    let h = head.len() as int;
    assert forall|j: int| 0 <= j < h implies sec[j] != '\n' by {
        if j < title.len() {
            assert(sec[j] == title[j]);
        } else if title.len() + 2 <= j < title.len() + 2 + timestamp.len() {
            assert(sec[j] == timestamp[j - title.len() - 2]);
        }
    }
    lemma_find_char(sec, '\n', 0, h);
    assert("\n"@ =~= seq!['\n']);
    assert(sec.take(h) =~= head);
    lemma_role_of_title(title, " ("@ + timestamp + ")"@);
    assert(head =~= title + (" ("@ + timestamp + ")"@));
    assert(sec.skip(h + 1) =~= body);
    assert(sec[0] == title[0]);
    assert(trim(sec).len() > 0) by {
        crate::text::lemma_trimmed_ends(title);
        assert(!crate::text::is_ws(sec[0]));
        crate::text::lemma_trim_start_len(sec);
        assert(crate::text::trim_start(sec) == sec);
        crate::text::lemma_trim_end_len(sec);
        assert(sec.last() == '\n');
        assert(crate::text::trim_end(sec) == crate::text::trim_end(sec.drop_last()));
        assert(sec.drop_last().last() == '`');
        assert(crate::text::trim_end(sec.drop_last()) == sec.drop_last());
    }
    // the fence before the text goes, the one after it stays
    let rest = tc + "\n"@ + "```\n"@;
    assert(body.take(4) =~= "```\n"@);
    assert(body.skip(4) =~= rest);
    assert(!starts_with(rest, "```\n"@)) by {
        assert(rest[0] == tc[0]);
        if starts_with(rest, "```\n"@) {
            assert(rest.take(4)[0] == rest[0]);
        }
    }
    assert(starts_with(body, "```\n"@));
    assert(crate::text::strip_leading(rest, "```\n"@) == rest);
    assert(crate::text::strip_leading(body, "```\n"@) == rest);
    assert(!ends_with(rest, "\n```"@)) by {
        if ends_with(rest, "\n```"@) {
            assert(rest.skip(rest.len() - 4)[3] == rest[rest.len() - 1]);
        }
    }
    assert(crate::text::strip_trailing(rest, "\n```"@) == rest);
    let kept = tc + "\n```"@;
    assert(rest =~= kept.push('\n'));
    lemma_trim_start_first(content);
    lemma_trim_end_shape(crate::text::trim_start(content));
    assert(kept[0] == tc[0]);
    assert(kept.last() == '`');
    crate::text::lemma_trim_fixed(kept);
    assert(crate::text::trim_start(rest) == rest);
    assert(rest.drop_last() =~= kept);
    assert(crate::text::trim_end(rest) == crate::text::trim_end(kept));
    assert(crate::text::trim_end(kept) == kept);
    assert(trim(rest) == kept);
}


/// A conversation log that holds one entry, written under one of the
/// session's titles with a text that is not blank, does not start with a
/// backquote or `#` and holds no section heading, gives exactly one message
/// to the model: that title's role and the entry's text (with the closing
/// fence mark that the reading leaves after it).
pub proof fn law_one_entry_history(title: Seq<char>, timestamp: Seq<char>, content: Seq<char>)
    requires
        title_role(title) is Some,
        forall|j: int| 0 <= j < timestamp.len() ==> #[trigger] timestamp[j] != '\n',
        trim(content).len() > 0,
        trim(content)[0] != '`',
        trim(content)[0] != '#',
        forall|i: int| !occurs_at(trim(content), "\n## "@, i),
    ensures
        history(log_entry_text(title, timestamp, content), None) == seq![
            (title_role(title)->0, trim(content) + "\n```"@),
        ],
        split_on(log_entry_text(title, timestamp, content).skip(4), "\n## "@) == seq![
            log_entry_text(title, timestamp, content).skip(4),
        ],
{
    reveal_strlit("User Input");
    reveal_strlit("Prime Response");
    reveal_strlit("Tool Results");
    reveal_strlit("Tool Failure");
    reveal_strlit("System");
    reveal_strlit("\n## ");
    reveal_strlit(" (");
    reveal_strlit(")\n");
    reveal_strlit("```\n");
    reveal_strlit("\n");
    reveal_strlit(")");
    law_logged_entry_is_message(title, timestamp, content);
    let sep = "\n## "@;
    let tc = trim(content);
    let entry = log_entry_text(title, timestamp, content);
    let sec = entry.skip(4);
    assert(entry.subrange(0, 4) =~= sep);
    assert(crate::text::find(entry, sep) == Some(0int));
    let h: int = (title.len() + 2 + timestamp.len() + 1) as int;
    let e: int = h + 5 + tc.len();
    assert(sec.len() == e + 5);
    assert(sec[h] == '\n' && sec[h + 1] == '`' && sec[h + 4] == '\n');
    assert(sec[e] == '\n' && sec[e + 1] == '`' && sec[e + 4] == '\n');
    assert forall|j: int| h + 5 <= j < e implies sec[j] == tc[j - h - 5] by {}
    assert forall|i: int| !occurs_at(sec, sep, i) by {
        if occurs_at(sec, sep, i) {
            let w = sec.subrange(i, i + 4);
            assert(w[0] == sec[i] && w[1] == sec[i + 1] && w[2] == sec[i + 2] && w[3] == sec[i + 3]);
            assert(sec[i] == '\n' && sec[i + 1] == '#' && sec[i + 2] == '#' && sec[i + 3] == ' ');
            if i < title.len() {
                assert(sec[i] == title[i]);
            } else if title.len() + 2 <= i < title.len() + 2 + timestamp.len() {
                assert(sec[i] == timestamp[i - title.len() - 2]);
            } else if h + 5 <= i && i + 4 <= e {
                assert(tc.subrange(i - h - 5, i - h - 1) =~= w);
                assert(occurs_at(tc, sep, i - h - 5));
            }
        }
    }
    lemma_no_occurrence(sec, sep, 0);
    assert(crate::text::find(sec, sep) is None);
    assert(split_on(sec, sep) == seq![sec]);
    assert(entry.take(0) =~= Seq::<char>::empty());
    assert(entry.skip(4) == sec);
    assert(split_on(entry, sep) =~= seq![Seq::<char>::empty(), sec]);
    assert(seq![Seq::<char>::empty(), sec].drop_last() =~= seq![Seq::<char>::empty()]);
    assert(seq![Seq::<char>::empty()].drop_last() =~= Seq::<Seq<char>>::empty());
    assert(trim(Seq::<char>::empty()).len() == 0) by {
        assert(crate::text::trim_start(Seq::<char>::empty()) == Seq::<char>::empty());
        assert(crate::text::trim_end(Seq::<char>::empty()) == Seq::<char>::empty());
    }
    assert(section_message(Seq::<char>::empty()) is None);
    assert(section_messages(Seq::<Seq<char>>::empty()) == Seq::<(Role, Seq<char>)>::empty());
    assert(seq![Seq::<char>::empty()].last() == Seq::<char>::empty());
    assert(section_messages(seq![Seq::<char>::empty()]) =~= Seq::<(Role, Seq<char>)>::empty());
}

/// With no occurrence from `i` on, the search from `i` finds none.
proof fn lemma_no_occurrence(s: Seq<char>, p: Seq<char>, i: int)
    requires
        0 <= i,
        forall|k: int| !occurs_at(s, p, k),
    ensures
        crate::text::find_from(s, p, i) is None,
    decreases s.len() + 1 - i,
{
    if i + p.len() <= s.len() {
        lemma_no_occurrence(s, p, i + 1);
    }
}


/// The search from `i` finds the first occurrence at or after `i`.
proof fn lemma_find_from_first(s: Seq<char>, p: Seq<char>, i: int)
    requires
        0 <= i,
    ensures
        match crate::text::find_from(s, p, i) {
            Some(k) => i <= k && occurs_at(s, p, k) && forall|j: int| i <= j < k ==> !occurs_at(s, p, j),
            None => forall|j: int| i <= j ==> !occurs_at(s, p, j),
        },
    decreases s.len() + 1 - i,
{
    if !(i + p.len() > s.len()) && !occurs_at(s, p, i) {
        lemma_find_from_first(s, p, i + 1);
    }
}

/// The search finds `k` when an occurrence stands there and none before it
/// from `i` on.
proof fn lemma_find_from_at(s: Seq<char>, p: Seq<char>, i: int, k: int)
    requires
        0 <= i <= k,
        occurs_at(s, p, k),
        forall|j: int| i <= j < k ==> !occurs_at(s, p, j),
    ensures
        crate::text::find_from(s, p, i) == Some(k),
    decreases k - i,
{
    if i < k {
        lemma_find_from_at(s, p, i + 1, k);
    }
}

/// Splitting a log at its section headings, with a new section appended
/// after a heading mark, gives the sections of the log and then those of
/// the new part: no heading mark can straddle the point where it was added.
proof fn lemma_split_on_append(a: Seq<char>, c: Seq<char>)
    ensures
        split_on(a + "\n## "@ + c, "\n## "@) == split_on(a, "\n## "@) + split_on(c, "\n## "@),
    decreases a.len(),
{
    reveal_strlit("\n## ");
    let sep = "\n## "@;
    let s = a + sep + c;
    lemma_find_from_first(a, sep, 0);
    assert forall|j: int| 0 <= j && j + 4 <= a.len() implies occurs_at(s, sep, j) == occurs_at(a, sep, j) by {
        assert(s.subrange(j, j + 4) =~= a.subrange(j, j + 4));
    }
    match find(a, sep) {
        Some(i) => {
            lemma_find_from_at(s, sep, 0, i);
            lemma_split_on_append(a.skip(i + 4), c);
            assert(s.take(i) =~= a.take(i));
            assert(s.skip(i + 4) =~= a.skip(i + 4) + sep + c);
            assert(split_on(s, sep) =~= seq![a.take(i)] + split_on(a.skip(i + 4) + sep + c, sep));
            assert(split_on(a, sep) =~= seq![a.take(i)] + split_on(a.skip(i + 4), sep));
            assert(split_on(s, sep) =~= split_on(a, sep) + split_on(c, sep));
        },
        None => {
            let n = a.len() as int;
            assert forall|j: int| 0 <= j < n implies !occurs_at(s, sep, j) by {
                if j + 4 > n && occurs_at(s, sep, j) {
                    let w = s.subrange(j, j + 4);
                    assert(w[0] == s[j] && w[1] == s[j + 1] && w[2] == s[j + 2] && w[3] == s[j + 3]);
                    assert(s[n] == '\n');
                }
            }
            assert(s.subrange(n, n + 4) =~= sep);
            lemma_find_from_at(s, sep, 0, n);
            assert(s.take(n) =~= a);
            assert(s.skip(n + 4) =~= c);
            assert(split_on(a, sep) == seq![a]);
        },
    }
}

/// Logging an entry adds its message to the history: after an entry is
/// written under one of the session's titles, with a text that is not blank,
/// does not start with a backquote or `#` and holds no section heading, the
/// history of the log is the history before it and then that entry's
/// message: the title's role and the text (with the closing fence mark that
/// the reading leaves after it). So a tool failure, like a tool result,
/// reaches the model as the user's message, after what came before.
pub proof fn law_logged_entry_extends_history(
    log: Seq<char>,
    title: Seq<char>,
    timestamp: Seq<char>,
    content: Seq<char>,
)
    requires
        title_role(title) is Some,
        forall|j: int| 0 <= j < timestamp.len() ==> #[trigger] timestamp[j] != '\n',
        trim(content).len() > 0,
        trim(content)[0] != '`',
        trim(content)[0] != '#',
        forall|i: int| !occurs_at(trim(content), "\n## "@, i),
    ensures
        history(log + log_entry_text(title, timestamp, content), None) == history(log, None).push(
            (title_role(title)->0, trim(content) + "\n```"@),
        ),
{
    reveal_strlit("\n## ");
    let sep = "\n## "@;
    let entry = log_entry_text(title, timestamp, content);
    let sec = entry.skip(4);
    law_one_entry_history(title, timestamp, content);
    law_logged_entry_is_message(title, timestamp, content);
    assert(entry.subrange(0, 4) =~= sep);
    assert(entry =~= sep + sec);
    assert(log + entry =~= log + sep + sec);
    lemma_split_on_append(log, sec);
    let xs = split_on(log, sep);
    assert((xs + seq![sec]).drop_last() =~= xs);
    assert((xs + seq![sec]).last() == sec);
}

} // verus!
