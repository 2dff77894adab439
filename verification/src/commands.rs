//! What the shell and file primitives make of the bytes they read: binary
//! detection, previews, line ranges, size limits and directory listings.
use vstd::prelude::*;
use vstd::utf8::{decode_utf8, valid_utf8};
use crate::config::valid_glob;
use crate::processor::{lowercase, to_lower};
use crate::text::{
    chars_of, contains, decimal, decimal_chars, ends_with, fit_chars_exec, join,
    join_chars, lemma_fit_chars_whole, lines, lines_of, push_chars, push_str, slice_chars, string_of,
    string_views, utf8_len, views,
};

verus! {

/// The most lines of a large file that are read.
pub const MAX_FILE_READ_LINES: usize = 1000;

/// The size above which a file is read only in part.
pub const MAX_FILE_READ_BYTES: u64 = 1048576;

/// The most entries a directory listing shows.
pub const MAX_DIR_LISTING_CHILDREN_DISPLAY: usize = 20;

/// The most characters of a command's output that a preview shows.
pub const OUTPUT_PREVIEW_BYTES: usize = 1024;

/// Whether the first 256 bytes hold a zero byte.
pub open spec fn binary_bytes(buf: Seq<u8>) -> bool {
    exists|i: int| 0 <= i < buf.len() && i < 256 && buf[i] == 0
}

/// Whether data looks binary: a zero byte among its first 256.
pub fn looks_binary(buf: &[u8]) -> (r: bool)
    ensures
        r == binary_bytes(buf@),
{
    let mut i: usize = 0;
    while i < buf.len() && i < 256
        invariant
            i <= buf.len(),
            i <= 256,
            forall|j: int| 0 <= j < i ==> buf@[j] != 0,
        decreases buf.len() - i,
    {
        if buf[i] == 0 {
            return true;
        }
        i = i + 1;
    }
    false
}

/// The text of bytes with each invalid UTF-8 sequence replaced, as
/// `String::from_utf8_lossy` gives it.
pub uninterp spec fn lossy_text(bytes: Seq<u8>) -> Seq<char>;

/// `String::from_utf8_lossy`: the text is `lossy_text` of the bytes, which
/// for valid UTF-8 is the decoded text.
#[verifier::external_body]
pub(crate) fn lossy(bytes: &[u8]) -> (r: String)
    ensures
        r@ == lossy_text(bytes@),
        valid_utf8(bytes@) ==> r@ == decode_utf8(bytes@),
{
    String::from_utf8_lossy(bytes).into_owned()
}

/// The preview of a command's output: a note for binary data, else its
/// first 1024 characters, with a note when the text is longer than 1024
/// bytes.
pub open spec fn preview_of(data: Seq<u8>) -> Seq<char> {
    if binary_bytes(data) {
        "[binary data omitted]"@
    } else {
        let t = lossy_text(data);
        (if t.len() > 1024 {
            t.take(1024)
        } else {
            t
        }) + (if utf8_len(t) > 1024 {
            "\n... (output truncated)"@
        } else {
            Seq::empty()
        })
    }
}

/// The preview of a command's output: a note for binary data, else its
/// first 1024 characters, with a note when the text is longer than 1024
/// bytes.
pub fn human_preview(data: &[u8]) -> (r: String)
    ensures
        r@ == preview_of(data@),
{
    if looks_binary(data) {
        return string_of(&chars_of("[binary data omitted]"));
    }
    let text = chars_of(lossy(data).as_str());
    let mut out = if text.len() > OUTPUT_PREVIEW_BYTES {
        let v = slice_chars(&text, 0, OUTPUT_PREVIEW_BYTES);
        assert(v@ =~= text@.take(1024));
        v
    } else {
        slice_chars(&text, 0, text.len())
    };
    assert(text@.subrange(0, text@.len() as int) =~= text@);
    let k = fit_chars_exec(&text, OUTPUT_PREVIEW_BYTES);
    proof {
        lemma_fit_chars_whole(text@, 1024);
    }
    if k < text.len() {
        push_str(&mut out, "\n... (output truncated)");
    }
    string_of(&out)
}

/// The output of a shell command: its standard output and, when it wrote
/// any, its standard error after a `STDERR:` line, read as text.
pub open spec fn merged_bytes(stdout: Seq<u8>, stderr: Seq<u8>) -> Seq<u8> {
    if stderr.len() == 0 {
        stdout
    } else {
        stdout + seq![10u8, 10u8, 83u8, 84u8, 68u8, 69u8, 82u8, 82u8, 58u8, 10u8] + stderr
    }
}

/// The output of a shell command: its standard output and, when it wrote
/// any, its standard error after a `STDERR:` line, read as text.
pub fn merged_output(stdout: &[u8], stderr: &[u8]) -> (r: String)
    ensures
        r@ == lossy_text(merged_bytes(stdout@, stderr@)),
{
    let mut merged: Vec<u8> = Vec::new();
    let mut i: usize = 0;
    while i < stdout.len()
        invariant
            i <= stdout.len(),
            merged@ == stdout@.take(i as int),
        decreases stdout.len() - i,
    {
        merged.push(stdout[i]);
        assert(stdout@.take(i + 1) =~= stdout@.take(i as int).push(stdout@[i as int]));
        i = i + 1;
    }
    assert(stdout@.take(stdout.len() as int) =~= stdout@);
    if stderr.len() > 0 {
        let marker: Vec<u8> = vec![10u8, 10u8, 83u8, 84u8, 68u8, 69u8, 82u8, 82u8, 58u8, 10u8];
        let ghost head = merged@;
        let mut j: usize = 0;
        while j < marker.len()
            invariant
                j <= marker.len(),
                merged@ == head + marker@.take(j as int),
            decreases marker.len() - j,
        {
            merged.push(marker[j]);
            assert(marker@.take(j + 1) =~= marker@.take(j as int).push(marker@[j as int]));
            j = j + 1;
        }
        assert(marker@.take(marker.len() as int) =~= marker@);
        let ghost head2 = merged@;
        let mut k: usize = 0;
        while k < stderr.len()
            invariant
                k <= stderr.len(),
                merged@ == head2 + stderr@.take(k as int),
            decreases stderr.len() - k,
        {
            merged.push(stderr[k]);
            assert(stderr@.take(k + 1) =~= stderr@.take(k as int).push(stderr@[k as int]));
            k = k + 1;
        }
        assert(stderr@.take(stderr.len() as int) =~= stderr@);
        assert(merged@ =~= merged_bytes(stdout@, stderr@));
    }
    lossy(merged.as_slice())
}

/// The patterns, in order, that a command contains.
pub open spec fn contained_patterns(command: Seq<char>, patterns: Seq<Seq<char>>) -> Seq<Seq<char>> {
    patterns.filter(|p: Seq<char>| contains(command, p))
}

/// The patterns, in order, that a command contains; each asks for a
/// confirmation before the command runs.
pub fn matching_patterns(command: &str, patterns: &Vec<String>) -> (r: Vec<String>)
    ensures
        string_views(r@) == contained_patterns(command@, string_views(patterns@)),
{
    let c = chars_of(command);
    let ghost pv = string_views(patterns@);
    let mut r: Vec<String> = Vec::new();
    let mut i: usize = 0;
    while i < patterns.len()
        invariant
            i <= patterns.len(),
            pv == string_views(patterns@),
            c@ == command@,
            string_views(r@) == contained_patterns(command@, pv.take(i as int)),
        decreases patterns.len() - i,
    {
        let p = chars_of(patterns[i].as_str());
        assert(pv.take(i + 1).drop_last() =~= pv.take(i as int));
        if crate::text::contains_chars(&c, &p) {
            let s = string_of(&p);
            proof {
                crate::text::lemma_string_views_push(r@, s);
            }
            r.push(s);
        }
        assert(contained_patterns(command@, pv.take(i + 1)) =~= contained_patterns(
            command@,
            pv.take(i as int),
        ) + if contains(command@, pv[i as int]) {
            seq![pv[i as int]]
        } else {
            Seq::empty()
        }) by {
            reveal(Seq::filter);
        }
        i = i + 1;
    }
    assert(pv.take(patterns.len() as int) =~= pv);
    r
}

// ---------------------------------------------------------------------
// Reading files
// ---------------------------------------------------------------------

/// Why part of a file could not be read.
#[derive(Debug, PartialEq, Eq, Clone)]
pub enum ReadError {
    /// The line range starts at 0 or after its end: the start and the end.
    InvalidRange(usize, usize),
}

impl ReadError {
    /// The message that describes the error.
    pub fn message(&self) -> (r: String)
        ensures
            self matches ReadError::InvalidRange(s, e) ==> r@
                == "Invalid line range: start must be >= 1 and start <= end. Got start="@
                + decimal(s as nat) + " end="@ + decimal(e as nat),
    {
        match self {
            ReadError::InvalidRange(s, e) => {
                let mut v = chars_of(
                    "Invalid line range: start must be >= 1 and start <= end. Got start=",
                );
                push_chars(&mut v, &decimal_chars(*s));
                push_str(&mut v, " end=");
                push_chars(&mut v, &decimal_chars(*e));
                string_of(&v)
            },
        }
    }
}

/// The note after a file's text when only part of it was read.
pub open spec fn file_note(truncated: bool) -> Seq<char> {
    if truncated {
        "\n... (file content truncated)"@
    } else {
        Seq::empty()
    }
}

/// A file's text with the note when only part of it was read, and whether
/// that is so.
pub fn file_read_result(content: &str, truncated: bool) -> (r: (String, bool))
    ensures
        r.0@ == content@ + file_note(truncated),
        r.1 == truncated,
{
    let mut v = chars_of(content);
    if truncated {
        push_str(&mut v, "\n... (file content truncated)");
    }
    (string_of(&v), truncated)
}

/// The lines `start..=end` (counted from 1) of a file's lines, as far as
/// the file goes, joined by line breaks, and whether the file goes on after
/// `end`.
pub open spec fn range_text(ls: Seq<Seq<char>>, start: nat, end: nat) -> (Seq<char>, bool) {
    if start > ls.len() {
        (Seq::empty(), end < ls.len())
    } else {
        let last = if end < ls.len() {
            end
        } else {
            ls.len()
        };
        (join(ls.subrange(start - 1, last as int), "\n"@), end < ls.len())
    }
}

/// The lines `start..=end` (counted from 1) of a file, with the note when
/// the file goes on after them, and whether it does; an error for a range
/// that starts at 0 or after its end.
pub fn range_content(lines: &Vec<String>, start: usize, end: usize) -> (r: Result<
    (String, bool),
    ReadError,
>)
    ensures
        start == 0 || start > end ==> r == Err::<(String, bool), ReadError>(
            ReadError::InvalidRange(start, end),
        ),
        !(start == 0 || start > end) ==> (r matches Ok((c, t)) && ({
            let (text, cut) = range_text(string_views(lines@), start as nat, end as nat);
            c@ == text + file_note(cut) && t == cut
        })),
{
    if start == 0 || start > end {
        return Err(ReadError::InvalidRange(start, end));
    }
    let total = lines.len();
    let truncated = end < total;
    if start > total {
        let r = file_read_result("", truncated);
        proof {
            reveal_strlit("");
        }
        return Ok(r);
    }
    let last = if end < total {
        end
    } else {
        total
    };
    let mut parts: Vec<Vec<char>> = Vec::new();
    let mut i: usize = start - 1;
    let ghost lv = string_views(lines@);
    while i < last
        invariant
            start >= 1,
            start - 1 <= i <= last <= lines.len(),
            lv == string_views(lines@),
            lv.len() == lines@.len(),
            views(parts@) == lv.subrange(start - 1, i as int),
        decreases last - i,
    {
        let p = chars_of(lines[i].as_str());
        assert(lv[i as int] == lines@[i as int]@);
        proof {
            crate::text::lemma_views_push(parts@, p);
        }
        parts.push(p);
        assert(lv.subrange(start - 1, i + 1) =~= lv.subrange(start - 1, i as int).push(lv[i as int]));
        i = i + 1;
    }
    let nl: Vec<char> = vec!['\n'];
    assert(nl@ =~= "\n"@) by {
        reveal_strlit("\n");
    }
    let joined = string_of(&join_chars(&parts, &nl));
    Ok(file_read_result(joined.as_str(), truncated))
}

/// The text read from the first part of a large file: a note for binary
/// data, else its first 1000 lines joined by line breaks.
pub open spec fn limited_text(buffer: Seq<u8>) -> Seq<char> {
    if binary_bytes(buffer) {
        "[binary data omitted]"@
    } else {
        let ls = lines(lossy_text(buffer));
        join(
            if ls.len() > 1000 {
                ls.take(1000)
            } else {
                ls
            },
            "\n"@,
        )
    }
}

/// What is read of a file larger than the limit, from its first bytes: a
/// note for binary data, else its first 1000 lines; always with the note
/// that the file was read in part.
pub fn limited_content(buffer: &[u8]) -> (r: (String, bool))
    ensures
        r.0@ == limited_text(buffer@) + file_note(true),
        r.1,
{
    if looks_binary(buffer) {
        return file_read_result("[binary data omitted]", true);
    }
    let text = chars_of(lossy(buffer).as_str());
    let ls = lines_of(&text);
    let n: usize = if ls.len() > MAX_FILE_READ_LINES {
        MAX_FILE_READ_LINES
    } else {
        ls.len()
    };
    let mut kept: Vec<Vec<char>> = Vec::new();
    let mut i: usize = 0;
    while i < n
        invariant
            i <= n <= ls.len(),
            n == (if ls.len() > 1000 { 1000 } else { ls.len() }),
            views(kept@) == views(ls@).take(i as int),
        decreases n - i,
    {
        let line = slice_chars(&ls[i], 0, ls[i].len());
        assert(line@ =~= ls@[i as int]@);
        proof {
            crate::text::lemma_views_push(kept@, line);
        }
        kept.push(line);
        assert(views(ls@).take(i + 1) =~= views(ls@).take(i as int).push(ls@[i as int]@));
        i = i + 1;
    }
    assert(views(ls@).take(n as int) =~= (if views(ls@).len() > 1000 {
        views(ls@).take(1000)
    } else {
        views(ls@)
    }));
    let nl: Vec<char> = vec!['\n'];
    assert(nl@ =~= "\n"@) by {
        reveal_strlit("\n");
    }
    let joined = string_of(&join_chars(&kept, &nl));
    file_read_result(joined.as_str(), true)
}

// ---------------------------------------------------------------------
// Directory listings
// ---------------------------------------------------------------------

/// Whether a text matches a glob pattern, as `glob::Pattern` matches it; an
/// invalid pattern matches nothing.
pub uninterp spec fn glob_match(pattern: Seq<char>, text: Seq<char>) -> bool;

/// `glob::Pattern::new(pattern)` and `Pattern::matches(text)`: the answer is
/// `glob_match` of the two; a pattern that does not compile matches nothing.
#[verifier::external_body]
fn glob_matches(pattern: &str, text: &str) -> (r: bool)
    ensures
        r == glob_match(pattern@, text@),
        !valid_glob(pattern@) ==> !r,
{
    match glob::Pattern::new(pattern) {
        Ok(p) => p.matches(text),
        Err(_) => false,
    }
}

/// An entry of a directory: its file name, its path and whether it is a
/// directory.
#[derive(Debug, Clone)]
pub struct DirEntry {
    pub file_name: String,
    pub path: String,
    pub is_dir: bool,
}

/// Whether an entry is ignored: one of the patterns matches its path or its
/// name.
pub open spec fn ignored(e: DirEntry, patterns: Seq<Seq<char>>) -> bool {
    exists|i: int|
        0 <= i < patterns.len() && (glob_match(patterns[i], e.path@) || glob_match(
            patterns[i],
            e.file_name@,
        ))
}

/// The name an entry is listed under: a directory's with a `/` after it.
pub open spec fn display_name(e: DirEntry) -> Seq<char> {
    if e.is_dir {
        e.file_name@ + "/"@
    } else {
        e.file_name@
    }
}

/// The names of the entries that no pattern ignores, in order.
pub open spec fn shown_names(es: Seq<DirEntry>, patterns: Seq<Seq<char>>) -> Seq<Seq<char>>
    decreases es.len(),
{
    if es.len() == 0 {
        Seq::empty()
    } else {
        shown_names(es.drop_last(), patterns) + if ignored(es.last(), patterns) {
            Seq::<Seq<char>>::empty()
        } else {
            seq![display_name(es.last())]
        }
    }
}

/// Whether `a` comes before `b` in lexicographic character order.
pub open spec fn lex_less(a: Seq<char>, b: Seq<char>) -> bool
    decreases a.len(),
{
    if a.len() == 0 {
        b.len() > 0
    } else if b.len() == 0 {
        false
    } else if a[0] != b[0] {
        (a[0] as u32) < (b[0] as u32)
    } else {
        lex_less(a.drop_first(), b.drop_first())
    }
}

/// Whether a listed name goes strictly before another: directories first,
/// then by their lower-case text.
pub open spec fn goes_before(a: Seq<char>, b: Seq<char>) -> bool {
    let a_dir = ends_with(a, "/"@);
    let b_dir = ends_with(b, "/"@);
    if a_dir != b_dir {
        a_dir
    } else {
        lex_less(lowercase(a), lowercase(b))
    }
}

/// The index at which a name goes into a sorted list: after every name
/// that it does not go before.
pub open spec fn insert_index(sorted: Seq<Seq<char>>, x: Seq<char>, i: int) -> int
    decreases sorted.len() - i,
{
    if i < 0 || i >= sorted.len() {
        sorted.len() as int
    } else if goes_before(x, sorted[i]) {
        i
    } else {
        insert_index(sorted, x, i + 1)
    }
}

/// The names sorted stably: directories first, then by lower-case text;
/// names that tie keep their order.
pub open spec fn sorted_names(names: Seq<Seq<char>>) -> Seq<Seq<char>>
    decreases names.len(),
{
    if names.len() == 0 {
        Seq::empty()
    } else {
        let s = sorted_names(names.drop_last());
        s.insert(insert_index(s, names.last(), 0), names.last())
    }
}

/// The listing of a directory: the names that no pattern ignores, sorted,
/// and at most 20 of them with a last line that counts the rest.
pub open spec fn listing(es: Seq<DirEntry>, patterns: Seq<Seq<char>>) -> Seq<Seq<char>> {
    let s = sorted_names(shown_names(es, patterns));
    if s.len() > 20 {
        s.take(20).push("... (and "@ + decimal((s.len() - 20) as nat) + " more items)"@)
    } else {
        s
    }
}

/// Lexicographic character order.
fn lex_less_exec(a: &Vec<char>, b: &Vec<char>) -> (r: bool)
    ensures
        r == lex_less(a@, b@),
{
    let mut i: usize = 0;
    assert(a@.skip(0) =~= a@);
    assert(b@.skip(0) =~= b@);
    while i < a.len() && i < b.len() && a[i] == b[i]
        invariant
            i <= a.len(),
            i <= b.len(),
            lex_less(a@, b@) == lex_less(a@.skip(i as int), b@.skip(i as int)),
        decreases a.len() - i,
    {
        assert(a@.skip(i as int).drop_first() =~= a@.skip(i + 1));
        assert(b@.skip(i as int).drop_first() =~= b@.skip(i + 1));
        i = i + 1;
    }
    if i == a.len() {
        i < b.len()
    } else if i == b.len() {
        false
    } else {
        (a[i] as u32) < (b[i] as u32)
    }
}

/// A name with its sort key: whether it is a directory and its lower-case
/// text.
struct Keyed {
    name: Vec<char>,
    is_dir: bool,
    lower: Vec<char>,
}

/// Whether a keyed name goes strictly before another.
fn keyed_before(a: &Keyed, b: &Keyed) -> (r: bool)
    requires
        a.is_dir == ends_with(a.name@, "/"@),
        b.is_dir == ends_with(b.name@, "/"@),
        a.lower@ == lowercase(a.name@),
        b.lower@ == lowercase(b.name@),
    ensures
        r == goes_before(a.name@, b.name@),
{
    if a.is_dir != b.is_dir {
        a.is_dir
    } else {
        lex_less_exec(&a.lower, &b.lower)
    }
}

/// A name with its sort key.
fn keyed(name: Vec<char>) -> (r: Keyed)
    ensures
        r.name@ == name@,
        r.is_dir == ends_with(name@, "/"@),
        r.lower@ == lowercase(name@),
{
    let slash: Vec<char> = vec!['/'];
    assert(slash@ =~= "/"@) by {
        reveal_strlit("/");
    }
    let is_dir = crate::text::ends_with_chars(&name, &slash);
    let lower = chars_of(to_lower(string_of(&name).as_str()).as_str());
    Keyed { name, is_dir, lower }
}

/// The names sorted stably: directories first, then by lower-case text.
fn sort_names(names: Vec<Vec<char>>) -> (r: Vec<Vec<char>>)
    ensures
        views(r@) == sorted_names(views(names@)),
{
    let ghost nv = views(names@);
    let mut sorted: Vec<Keyed> = Vec::new();
    let mut i: usize = 0;
    while i < names.len()
        invariant
            i <= names.len(),
            nv == views(names@),
            sorted@.map_values(|k: Keyed| k.name@) == sorted_names(nv.take(i as int)),
            forall|j: int|
                0 <= j < sorted@.len() ==> (#[trigger] sorted@[j]).is_dir == ends_with(
                    sorted@[j].name@,
                    "/"@,
                ) && sorted@[j].lower@ == lowercase(sorted@[j].name@),
        decreases names.len() - i,
    {
        let x = keyed(crate::text::copy_chars(&names[i]));
        let ghost sv = sorted@.map_values(|k: Keyed| k.name@);
        assert(nv.take(i + 1).drop_last() =~= nv.take(i as int));
        assert(x.name@ == nv[i as int]);
        let mut j: usize = 0;
        while j < sorted.len() && !keyed_before(&x, &sorted[j])
            invariant
                j <= sorted.len(),
                sv == sorted@.map_values(|k: Keyed| k.name@),
                x.is_dir == ends_with(x.name@, "/"@),
                x.lower@ == lowercase(x.name@),
                forall|m: int|
                    0 <= m < sorted@.len() ==> (#[trigger] sorted@[m]).is_dir == ends_with(
                        sorted@[m].name@,
                        "/"@,
                    ) && sorted@[m].lower@ == lowercase(sorted@[m].name@),
                insert_index(sv, x.name@, 0) == insert_index(sv, x.name@, j as int),
            decreases sorted.len() - j,
        {
            j = j + 1;
        }
        let ghost before = sorted@;
        sorted.insert(j, x);
        assert(sorted@.map_values(|k: Keyed| k.name@) =~= sv.insert(j as int, x.name@));
        assert forall|m: int| 0 <= m < sorted@.len() implies (#[trigger] sorted@[m]).is_dir
            == ends_with(sorted@[m].name@, "/"@) && sorted@[m].lower@ == lowercase(
            sorted@[m].name@,
        ) by {
            if m < j {
                assert(sorted@[m] == before[m]);
            } else if m > j {
                assert(sorted@[m] == before[m - 1]);
            }
        }
        i = i + 1;
    }
    assert(nv.take(names.len() as int) =~= nv);
    let mut r: Vec<Vec<char>> = Vec::new();
    let mut k: usize = 0;
    while k < sorted.len()
        invariant
            k <= sorted.len(),
            views(r@) == sorted@.map_values(|x: Keyed| x.name@).take(k as int),
        decreases sorted.len() - k,
    {
        let c = crate::text::copy_chars(&sorted[k].name);
        proof {
            crate::text::lemma_views_push(r@, c);
        }
        r.push(c);
        assert(sorted@.map_values(|x: Keyed| x.name@).take(k + 1) =~= sorted@.map_values(
            |x: Keyed| x.name@,
        ).take(k as int).push(sorted@[k as int].name@));
        k = k + 1;
    }
    assert(sorted@.map_values(|x: Keyed| x.name@).take(sorted.len() as int) =~= sorted@.map_values(
        |x: Keyed| x.name@,
    ));
    r
}

/// Whether one of the patterns matches the entry's path or name.
fn is_ignored(e: &DirEntry, patterns: &Vec<String>) -> (r: bool)
    ensures
        r == ignored(*e, string_views(patterns@)),
{
    let mut i: usize = 0;
    while i < patterns.len()
        invariant
            i <= patterns.len(),
            forall|j: int|
                0 <= j < i ==> !(glob_match(#[trigger] patterns@[j]@, e.path@) || glob_match(
                    patterns@[j]@,
                    e.file_name@,
                )),
        decreases patterns.len() - i,
    {
        if glob_matches(patterns[i].as_str(), e.path.as_str()) || glob_matches(
            patterns[i].as_str(),
            e.file_name.as_str(),
        ) {
            assert(string_views(patterns@)[i as int] == patterns@[i as int]@);
            return true;
        }
        i = i + 1;
    }
    assert forall|j: int| 0 <= j < string_views(patterns@).len() implies !(glob_match(
        string_views(patterns@)[j],
        e.path@,
    ) || glob_match(string_views(patterns@)[j], e.file_name@)) by {
        assert(string_views(patterns@)[j] == patterns@[j]@);
    }
    false
}

/// The listing of a directory's entries: those that no pattern matches by
/// path or name, directories marked with `/` and first, then by lower-case
/// name; at most 20, with a last line that counts the rest.
pub fn arrange_listing(entries: &Vec<DirEntry>, patterns: &Vec<String>) -> (r: Vec<String>)
    ensures
        string_views(r@) == listing(entries@, string_views(patterns@)),
{
    let ghost pv = string_views(patterns@);
    let mut names: Vec<Vec<char>> = Vec::new();
    let mut i: usize = 0;
    while i < entries.len()
        invariant
            i <= entries.len(),
            pv == string_views(patterns@),
            views(names@) == shown_names(entries@.take(i as int), pv),
        decreases entries.len() - i,
    {
        let e = &entries[i];
        assert(entries@.take(i + 1).drop_last() =~= entries@.take(i as int));
        if !is_ignored(e, patterns) {
            let mut n = chars_of(e.file_name.as_str());
            if e.is_dir {
                push_str(&mut n, "/");
            }
            proof {
                crate::text::lemma_views_push(names@, n);
            }
            names.push(n);
        }
        i = i + 1;
    }
    assert(entries@.take(entries.len() as int) =~= entries@);
    let sorted = sort_names(names);
    let ghost sv = views(sorted@);
    let n = if sorted.len() > MAX_DIR_LISTING_CHILDREN_DISPLAY {
        MAX_DIR_LISTING_CHILDREN_DISPLAY
    } else {
        sorted.len()
    };
    let mut r: Vec<String> = Vec::new();
    let mut k: usize = 0;
    while k < n
        invariant
            k <= n <= sorted.len(),
            sv == views(sorted@),
            string_views(r@) == sv.take(k as int),
        decreases n - k,
    {
        let s = string_of(&sorted[k]);
        proof {
            crate::text::lemma_string_views_push(r@, s);
        }
        r.push(s);
        assert(sv.take(k + 1) =~= sv.take(k as int).push(sv[k as int]));
        k = k + 1;
    }
    if sorted.len() > MAX_DIR_LISTING_CHILDREN_DISPLAY {
        let mut more = chars_of("... (and ");
        push_chars(&mut more, &decimal_chars(sorted.len() - MAX_DIR_LISTING_CHILDREN_DISPLAY));
        push_str(&mut more, " more items)");
        let s = string_of(&more);
        proof {
            crate::text::lemma_string_views_push(r@, s);
        }
        r.push(s);
    } else {
        assert(sv.take(n as int) =~= sv);
    }
    r
}

// ---------------------------------------------------------------------
// Laws
// ---------------------------------------------------------------------

/// No text comes before itself.
proof fn lemma_lex_less_irreflexive(a: Seq<char>)
    ensures
        !lex_less(a, a),
    decreases a.len(),
{
    if a.len() > 0 {
        lemma_lex_less_irreflexive(a.drop_first());
    }
}

/// Lexicographic order is transitive.
proof fn lemma_lex_less_transitive(a: Seq<char>, b: Seq<char>, c: Seq<char>)
    requires
        lex_less(a, b),
        lex_less(b, c),
    ensures
        lex_less(a, c),
    decreases a.len(),
{
    if a.len() > 0 && b.len() > 0 && c.len() > 0 && a[0] == b[0] && b[0] == c[0] {
        lemma_lex_less_transitive(a.drop_first(), b.drop_first(), c.drop_first());
    }
}

/// No name goes before itself, and going before is transitive.
proof fn lemma_goes_before_order(a: Seq<char>, b: Seq<char>, c: Seq<char>)
    ensures
        !goes_before(a, a),
        goes_before(a, b) && goes_before(b, c) ==> goes_before(a, c),
{
    lemma_lex_less_irreflexive(lowercase(a));
    if goes_before(a, b) && goes_before(b, c) {
        if ends_with(a, "/"@) == ends_with(b, "/"@) && ends_with(b, "/"@) == ends_with(c, "/"@) {
            lemma_lex_less_transitive(lowercase(a), lowercase(b), lowercase(c));
        }
    }
}

/// Whether no name of the list goes before an earlier one.
pub open spec fn listing_order(s: Seq<Seq<char>>) -> bool {
    forall|i: int, j: int| 0 <= i < j < s.len() ==> !goes_before(#[trigger] s[j], #[trigger] s[i])
}

/// Where `insert_index` puts a name: no name before it is one the name goes
/// before, and it goes before the name at that place.
proof fn lemma_insert_index(s: Seq<Seq<char>>, x: Seq<char>, i: int)
    requires
        0 <= i <= s.len(),
        forall|j: int| 0 <= j < i ==> !goes_before(x, #[trigger] s[j]),
    ensures
        i <= insert_index(s, x, i) <= s.len(),
        forall|j: int| 0 <= j < insert_index(s, x, i) ==> !goes_before(x, #[trigger] s[j]),
        insert_index(s, x, i) < s.len() ==> goes_before(x, s[insert_index(s, x, i)]),
    decreases s.len() - i,
{
    if i < s.len() && !goes_before(x, s[i]) {
        lemma_insert_index(s, x, i + 1);
    }
}

/// The sorted names hold the same names, in an order where no name goes
/// before an earlier one.
proof fn lemma_sorted_names(names: Seq<Seq<char>>)
    ensures
        listing_order(sorted_names(names)),
        sorted_names(names).to_multiset() == names.to_multiset(),
    decreases names.len(),
{
    broadcast use vstd::seq_lib::to_multiset_insert, vstd::seq_lib::to_multiset_build;

    if names.len() > 0 {
        let init = names.drop_last();
        let x = names.last();
        lemma_sorted_names(init);
        let s = sorted_names(init);
        lemma_insert_index(s, x, 0);
        let k = insert_index(s, x, 0);
        let r = s.insert(k, x);
        assert forall|i: int, j: int| 0 <= i < j < r.len() implies !goes_before(
            #[trigger] r[j],
            #[trigger] r[i],
        ) by {
            lemma_goes_before_order(x, x, x);
            if j < k {
                assert(r[i] == s[i] && r[j] == s[j]);
            } else if j == k {
                assert(r[i] == s[i]);
            } else if i == k {
                assert(r[j] == s[j - 1]);
                if j - 1 > k {
                    lemma_goes_before_order(s[j - 1], x, s[k]);
                } else {
                    lemma_goes_before_order(x, s[k], x);
                }
            } else if i < k {
                assert(r[i] == s[i] && r[j] == s[j - 1]);
            } else {
                assert(r[i] == s[i - 1] && r[j] == s[j - 1]);
            }
        }
        assert(names =~= init.push(x));
        assert(r.to_multiset() == s.to_multiset().insert(x));
        assert(init.push(x).to_multiset() == init.to_multiset().insert(x));
    } else {
        assert(sorted_names(names) =~= names);
    }
}

/// A directory listing shows the names of the entries that no pattern
/// ignores, each once: directories first, then in case-insensitive order
/// (no name goes before an earlier one), cut to 20 with a line that counts
/// the rest.
pub proof fn law_listing_sorted(entries: Seq<DirEntry>, patterns: Seq<Seq<char>>)
    ensures
        listing_order(sorted_names(shown_names(entries, patterns))),
        sorted_names(shown_names(entries, patterns)).to_multiset() == shown_names(
            entries,
            patterns,
        ).to_multiset(),
        listing(entries, patterns).len() <= 21,
{
    lemma_sorted_names(shown_names(entries, patterns));
}


/// A line range is reported cut short exactly when the file has a line after
/// the range's end; a range that reaches the file's last line, or goes past
/// it, is whole. The text then holds each line of the range that the file
/// has, and no other.
pub proof fn law_range_cut_exactly_when_lines_remain(ls: Seq<Seq<char>>, start: nat, end: nat)
    requires
        1 <= start <= end,
    ensures
        range_text(ls, start, end).1 <==> ls.len() >= end + 1,
        end >= ls.len() ==> !range_text(ls, start, end).1,
        start <= ls.len() ==> range_text(ls, start, end).0 == join(
            ls.subrange(start - 1, if end < ls.len() { end as int } else { ls.len() as int }),
            "\n"@,
        ),
        start > ls.len() ==> range_text(ls, start, end).0.len() == 0,
{
}

} // verus!
