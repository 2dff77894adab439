use prime::memory::{initial_memory_content, memory_entry, memory_file_for, MemoryError, MemoryManager};

fn s(x: &str) -> String {
    x.to_string()
}

#[test]
fn memory_files_and_texts() {
    assert_eq!(memory_file_for("long_term"), Ok(s("long_term.md")));
    assert_eq!(memory_file_for("short_term"), Ok(s("short_term.md")));
    let e = memory_file_for("mid_term").unwrap_err();
    assert_eq!(e, MemoryError::InvalidType(s("mid_term")));
    assert_eq!(e.message(), "Invalid memory type 'mid_term' specified");
    assert_eq!(
        initial_memory_content("long_term.md"),
        "# Prime Long-term Memory\n\n(This file is for notes. The AI will read this.)"
    );
    assert_eq!(
        initial_memory_content("short_term.md"),
        "# Prime Short-term Memory\n\n(This file is for notes. The AI will read this.)"
    );
    assert_eq!(memory_entry("T", "note"), "\n## Entry (T)\nnote\n");
}

#[test]
fn reading_memories() {
    let m = MemoryManager::at("/tmp/mem");
    assert_eq!(m.memory_dir(), "/tmp/mem");
    let read = |name: &str| -> Option<String> {
        match name {
            "long_term.md" => Some(s("  long text  ")),
            _ => None,
        }
    };
    assert_eq!(m.read_memory(Some("long_term"), read), Ok(s("## Long-term Memory\n  long text  ")));
    assert_eq!(
        m.read_memory(Some("short_term"), read),
        Err(MemoryError::Unreadable(s("short_term.md")))
    );
    assert_eq!(m.read_memory(Some("x"), read), Err(MemoryError::InvalidType(s("x"))));
    assert_eq!(
        m.read_memory(None, read),
        Ok(s("\n<LONG_TERM_MEMORY>\nlong text\n</LONG_TERM_MEMORY>\n\n<SHORT_TERM_MEMORY>\n\n</SHORT_TERM_MEMORY>\n"))
    );
    assert_eq!(MemoryError::Unreadable(s("f.md")).message(), "Failed to read memory file: f.md");
}

#[test]
fn written_entry_reads_back_at_the_end() {
    let m = MemoryManager::at("d");
    let file = format!("{}{}", initial_memory_content("long_term.md"), memory_entry("now", "remember this"));
    let read = |_: &str| -> Option<String> { Some(file.clone()) };
    let text = m.read_memory(Some("long_term"), read).unwrap();
    assert!(text.ends_with("\n## Entry (now)\nremember this\n"));
}
