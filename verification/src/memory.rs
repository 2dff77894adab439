//! The assistant's long-term and short-term memory notes.
use vstd::prelude::*;
use crate::text::{chars_of, eq_str, push_str, string_of, trim, trim_chars};

verus! {

/// Why a memory operation failed.
#[derive(Debug, PartialEq, Eq, Clone)]
pub enum MemoryError {
    /// The memory type is neither "long_term" nor "short_term"; holds it.
    InvalidType(String),
    /// The memory file could not be read; holds its name.
    Unreadable(String),
}

impl MemoryError {
    /// The message that describes the error.
    pub fn message(&self) -> (r: String)
        ensures
            self matches MemoryError::InvalidType(t) ==> r@ == "Invalid memory type '"@ + t@
                + "' specified"@,
            self matches MemoryError::Unreadable(f) ==> r@ == "Failed to read memory file: "@
                + f@,
    {
        match self {
            MemoryError::InvalidType(t) => {
                let mut m = chars_of("Invalid memory type '");
                push_str(&mut m, t.as_str());
                push_str(&mut m, "' specified");
                string_of(&m)
            },
            MemoryError::Unreadable(f) => {
                let mut m = chars_of("Failed to read memory file: ");
                push_str(&mut m, f.as_str());
                string_of(&m)
            },
        }
    }
}

/// Manages the memory files of a directory.
#[derive(Debug, Clone)]
pub struct MemoryManager {
    memory_dir: String,
}

/// The file of a memory type, if it is one.
pub open spec fn memory_file(memory_type: Seq<char>) -> Option<Seq<char>> {
    if memory_type == "long_term"@ {
        Some("long_term.md"@)
    } else if memory_type == "short_term"@ {
        Some("short_term.md"@)
    } else {
        None
    }
}

/// The file of a memory type: "long_term.md" or "short_term.md".
pub fn memory_file_for(memory_type: &str) -> (r: Result<String, MemoryError>)
    ensures
        memory_file(memory_type@) matches Some(f) ==> (r matches Ok(s) && s@ == f),
        memory_file(memory_type@) is None ==> (r matches Err(MemoryError::InvalidType(s))
            && s@ == memory_type@),
{
    let t = chars_of(memory_type);
    if eq_str(&t, "long_term") {
        Ok(string_of(&chars_of("long_term.md")))
    } else if eq_str(&t, "short_term") {
        Ok(string_of(&chars_of("short_term.md")))
    } else {
        Err(MemoryError::InvalidType(string_of(&t)))
    }
}

/// The text a memory file starts with, and holds again when cleared.
pub open spec fn memory_header(file_name: Seq<char>) -> Seq<char> {
    "# Prime "@ + (if file_name == "long_term.md"@ {
        "Long-term"@
    } else {
        "Short-term"@
    }) + " Memory\n\n(This file is for notes. The AI will read this.)"@
}

/// The text a memory file starts with, and holds again when cleared.
pub fn initial_memory_content(file_name: &str) -> (r: String)
    ensures
        r@ == memory_header(file_name@),
{
    let f = chars_of(file_name);
    let mut h = chars_of("# Prime ");
    if eq_str(&f, "long_term.md") {
        push_str(&mut h, "Long-term");
    } else {
        push_str(&mut h, "Short-term");
    }
    push_str(&mut h, " Memory\n\n(This file is for notes. The AI will read this.)");
    string_of(&h)
}

/// The text appended to a memory file for a new note.
pub fn memory_entry(timestamp: &str, content: &str) -> (r: String)
    ensures
        r@ == memory_entry_text(timestamp@, content@),
{
    let mut e = chars_of("\n## Entry (");
    push_str(&mut e, timestamp);
    push_str(&mut e, ")\n");
    push_str(&mut e, content);
    push_str(&mut e, "\n");
    string_of(&e)
}

/// The combined memory shown to the model: both memories, trimmed, each
/// between its tags (an unreadable one as empty).
pub open spec fn combined_memory(long_term: Seq<char>, short_term: Seq<char>) -> Seq<char> {
    "\n<LONG_TERM_MEMORY>\n"@ + trim(long_term) + "\n</LONG_TERM_MEMORY>\n"@
        + "\n<SHORT_TERM_MEMORY>\n"@ + trim(short_term) + "\n</SHORT_TERM_MEMORY>\n"@
}

/// The result of reading a named memory: its heading and the file's text,
/// or the file's name when it could not be read.
pub open spec fn named_memory(
    r: Result<String, MemoryError>,
    o: Option<String>,
    heading: Seq<char>,
    file: Seq<char>,
) -> bool {
    match o {
        Some(c) => r matches Ok(s) && s@ == heading + c@,
        None => r matches Err(e) && e matches MemoryError::Unreadable(f) && f@ == file,
    }
}

/// What a read gave, or nothing when it failed.
pub open spec fn or_empty(o: Option<String>) -> Seq<char> {
    match o {
        Some(s) => s@,
        None => Seq::empty(),
    }
}

/// A named memory from what reading its file gave.
fn named_memory_of(o: &Option<String>, heading: &str, file: &str) -> (r: Result<String, MemoryError>)
    ensures
        named_memory(r, *o, heading@, file@),
{
    match o {
        Some(c) => {
            let mut m = chars_of(heading);
            push_str(&mut m, c.as_str());
            Ok(string_of(&m))
        },
        None => Err(MemoryError::Unreadable(string_of(&chars_of(file)))),
    }
}

impl MemoryManager {
    /// The directory of the memory files.
    pub closed spec fn dir(&self) -> Seq<char> {
        self.memory_dir@
    }

    /// A manager of the memory files in the directory.
    pub fn at(memory_dir: &str) -> (m: Self)
        ensures
            m.dir() == memory_dir@,
    {
        MemoryManager { memory_dir: string_of(&chars_of(memory_dir)) }
    }

    /// The directory of the memory files.
    pub fn memory_dir(&self) -> (r: String)
        ensures
            r@ == self.dir(),
    {
        string_of(&chars_of(self.memory_dir.as_str()))
    }

    /// Reads memory with `read_file`, which gives the text of a memory file
    /// by its name, or nothing when it cannot be read. A named memory comes
    /// under its heading; with no type, both memories come together, an
    /// unreadable one as empty.
    pub fn read_memory<F: Fn(&str) -> Option<String>>(
        &self,
        memory_type: Option<&str>,
        read_file: F,
    ) -> (r: Result<String, MemoryError>)
        requires
            forall|name: &str| read_file.requires((name,)),
        ensures
            memory_type matches Some(t) ==> (memory_file(t@) is None ==> (r matches Err(
                MemoryError::InvalidType(s),
            ) && s@ == t@)),
            memory_type matches Some(t) ==> (t@ == "long_term"@ ==> exists|o: Option<String>|
                #[trigger] read_file.ensures(("long_term.md",), o) && named_memory(
                    r,
                    o,
                    "## Long-term Memory\n"@,
                    "long_term.md"@,
                )),
            memory_type matches Some(t) ==> (t@ == "short_term"@ ==> exists|o: Option<String>|
                #[trigger] read_file.ensures(("short_term.md",), o) && named_memory(
                    r,
                    o,
                    "## Short-term Memory\n"@,
                    "short_term.md"@,
                )),
            memory_type is None ==> exists|lo: Option<String>, so: Option<String>|
                #![trigger read_file.ensures(("long_term.md",), lo), read_file.ensures(("short_term.md",), so)]
                read_file.ensures(("long_term.md",), lo) && read_file.ensures(("short_term.md",), so)
                    && (r matches Ok(s) && s@ == combined_memory(or_empty(lo), or_empty(so))),
    {
        match memory_type {
            Some(t) => {
                let tc = chars_of(t);
                proof {
                    reveal_strlit("long_term");
                    reveal_strlit("short_term");
                }
                if eq_str(&tc, "long_term") {
                    let o = read_file("long_term.md");
                    let r = named_memory_of(&o, "## Long-term Memory\n", "long_term.md");
                    assert(read_file.ensures(("long_term.md",), o));
                    assert("long_term"@.len() != "short_term"@.len());
                    r
                } else if eq_str(&tc, "short_term") {
                    let o = read_file("short_term.md");
                    let r = named_memory_of(&o, "## Short-term Memory\n", "short_term.md");
                    assert(read_file.ensures(("short_term.md",), o));
                    r
                } else {
                    Err(MemoryError::InvalidType(string_of(&tc)))
                }
            },
            None => {
                let lo = read_file("long_term.md");
                let so = read_file("short_term.md");
                let long_term = match &lo {
                    Some(c) => chars_of(c.as_str()),
                    None => Vec::new(),
                };
                let short_term = match &so {
                    Some(c) => chars_of(c.as_str()),
                    None => Vec::new(),
                };
                let mut m = chars_of("\n<LONG_TERM_MEMORY>\n");
                crate::text::push_chars(&mut m, &trim_chars(&long_term));
                push_str(&mut m, "\n</LONG_TERM_MEMORY>\n");
                push_str(&mut m, "\n<SHORT_TERM_MEMORY>\n");
                crate::text::push_chars(&mut m, &trim_chars(&short_term));
                push_str(&mut m, "\n</SHORT_TERM_MEMORY>\n");
                assert(m@ =~= combined_memory(or_empty(lo), or_empty(so)));
                Ok(string_of(&m))
            },
        }
    }
}

/// The text appended to a memory file for a note.
pub open spec fn memory_entry_text(timestamp: Seq<char>, content: Seq<char>) -> Seq<char> {
    "\n## Entry ("@ + timestamp + ")\n"@ + content + "\n"@
}

/// What a read gives back of a write: reading a memory whose file got a new
/// entry (the file's text then being the earlier text and the entry) shows
/// the memory's heading, the earlier text and the entry, which ends it.
pub proof fn law_read_after_write(
    r: Result<String, MemoryError>,
    file_text: String,
    earlier: Seq<char>,
    timestamp: Seq<char>,
    content: Seq<char>,
    heading: Seq<char>,
    file: Seq<char>,
)
    requires
        file_text@ == earlier + memory_entry_text(timestamp, content),
        named_memory(r, Some(file_text), heading, file),
    ensures
        r matches Ok(t) && t@ == heading + earlier + memory_entry_text(timestamp, content)
            && crate::text::ends_with(t@, memory_entry_text(timestamp, content)),
{
    let entry = memory_entry_text(timestamp, content);
    let t = r->Ok_0;
    assert(t@ =~= heading + earlier + entry);
    assert(t@.skip(t@.len() - entry.len()) =~= entry);
}


/// What a read gives back after a clear: reading a memory whose file was
/// cleared (its text then being the memory's header) shows the memory's
/// heading and that header, nothing more; for the long-term memory, its
/// heading line, then its title and the note line.
pub proof fn law_read_after_clear(
    r: Result<String, MemoryError>,
    file_text: String,
    heading: Seq<char>,
    file: Seq<char>,
)
    requires
        file_text@ == memory_header(file),
        named_memory(r, Some(file_text), heading, file),
    ensures
        r matches Ok(t) && t@ == heading + memory_header(file),
        (file == "long_term.md"@ && heading == "## Long-term Memory\n"@) ==> (r matches Ok(t) && t@
            == "## Long-term Memory\n# Prime Long-term Memory\n\n(This file is for notes. The AI will read this.)"@),
{
    reveal_strlit("## Long-term Memory\n");
    reveal_strlit("# Prime ");
    reveal_strlit("Long-term");
    reveal_strlit(" Memory\n\n(This file is for notes. The AI will read this.)");
    reveal_strlit("## Long-term Memory\n# Prime Long-term Memory\n\n(This file is for notes. The AI will read this.)");
    let t = r->Ok_0;
    if file == "long_term.md"@ && heading == "## Long-term Memory\n"@ {
        assert(t@ =~= "## Long-term Memory\n# Prime Long-term Memory\n\n(This file is for notes. The AI will read this.)"@);
    }
}

} // verus!
