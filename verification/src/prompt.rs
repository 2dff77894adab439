//! The system prompt that tells the model what it is, what tools it has and
//! the context it works in.
use vstd::prelude::*;
use crate::session::DiscoveredTool;
use crate::text::{chars_of, decimal, decimal_chars, push_chars, push_str, string_of, words, words_of};

verus! {

/// How the assistant should behave.
pub const BEHAVIORAL_PROMPT: &'static str = "\nYou are PRIME, an AI terminal assistant designed to help users accomplish tasks efficiently.\nCORE PRINCIPLES:\n1. You operate through the terminal interface only.\n2. Formulate a plan, present it, and await execution.\n3. On failure, analyze the error and formulate a new, corrected plan.\n4. You can extend yourself by creating new tools dynamically using the create_tool tool. This allows you to build custom capabilities on the fly without user intervention.\nENVIRONMENTAL AWARENESS:\n- Before performing complex operations like software installation, always perform pre-flight checks to gather context.\n- Use commands like `python --version`, `uname -a` (or `ver` on Windows), `uv --version`, and `nvidia-smi` to understand the system. Incorporate this information into your plan.\nCOMMAND EXECUTION:\n- Use non-interactive commands with non-paginated output.\n- Use the `cd` command to change the working directory; this state is maintained across turns.\n- Use absolute paths when possible for clarity, or paths relative to the current working directory.\n- Handle errors gracefully by analyzing the output and providing a corrected plan.\nRESPONSE FORMAT:\n- Provide natural language responses for context and explanations.\n- Use annotated Markdown code blocks for actions.\nTOOLS:\n- Only use the provided tools.\n- Never reference tool names directly in user communications.\n- Always follow tool-specific rules and constraints.\n- If a task requires a new capability, use create_tool to extend yourself immediately—it will be auto-discovered for future use.\nTASK COMPLETION:\n- Focus on exactly what the user requested.\n- If a tool fails, DO NOT RE-TRY THE EXACT SAME COMMAND. Analyze the error message and change your approach, or create a new tool if needed.\n- Verify task completion before responding with a final message.\n\nSELF-EXTENSION EXAMPLE:\nTo handle a unique task like \"analyze PDF metadata\", you can create a tool:\n```primeactions\ncreate_tool: name=pdf_analyze desc=\"Extract metadata from PDF files\" args=\"file_path\"\n#!/bin/bash\n## TOOL: name=pdf_analyze desc=\"Extract metadata from PDF files\" args=\"file_path\"\nfile_path=\"$1\"\nexiftool \"$file_path\" || echo \"Error extracting metadata.\"\nEOF_PRIME\n```\nFor PowerShell (if on Windows):\n```primeactions\ncreate_tool: name=pdf_analyze desc=\"Extract metadata from PDF files\" args=\"file_path\"\nparam([string]$file_path)\n## TOOL: name=pdf_analyze desc=\"Extract metadata from PDF files\" args=\"file_path\"\nGet-ChildItem $file_path | ForEach-Object { $_.VersionInfo } || Write-Output \"Error extracting metadata.\"\nEOF_PRIME\n```\nAfter creation, reload happens automatically, and you can use `pdf_analyze: some.pdf` in the next turn.\n\nAnother example - web scraper stub (extend with curl/wget):\n```primeactions\ncreate_tool: name=fetch_url desc=\"Fetch content from a URL\" args=\"url\"\n#!/bin/bash\n## TOOL: name=fetch_url desc=\"Fetch content from a URL\" args=\"url\"\nurl=\"$1\"\ncurl -s \"$url\" || echo \"Failed to fetch URL.\"\nEOF_PRIME\n```\nPowerShell:\n```primeactions\ncreate_tool: name=fetch_url desc=\"Fetch content from a URL\" args=\"url\"\nparam([string]$url)\n## TOOL: name=fetch_url desc=\"Fetch content from a URL\" args=\"url\"\nInvoke-WebRequest -Uri $url -UseBasicParsing | Select-Object -ExpandProperty Content || Write-Output \"Failed to fetch URL.\"\nEOF_PRIME\n```\nUse create_tool proactively to build specialized tools for recurring or complex tasks.\n";

/// The built-in tools, as the prompt describes them.
pub const BUILTIN_TOOLS: &'static str = "\n**AVAILABLE TOOLS**\n1. `shell: <command>`\n    - Executes a shell command in the current working directory.\n    - Example: `shell: ls -l`\n2. `cd: <path>`\n    - Changes the current working directory. The new directory persists for all future commands.\n    - Example: `cd: src/`\n3. `read_file: <path> [lines=start-end]`\n    - Reads a file. Optionally, you can specify a line range.\n    - Example: `read_file: src/main.rs lines=1-20`\n4. `write_file: <path> [append=true]`\n    - Writes content to a file. Overwrites by default. Use `append=true` to append.\n    - The content to write must follow on new lines, terminated by `EOF_PRIME`.\n    - Example:\n      ```primeactions\n      write_file: new_file.txt\n      Hello, world!\n      EOF_PRIME\n      ```\n5. `list_dir: <path>`\n    - Lists the contents of a directory.\n    - Example: `list_dir: .`\n6. `write_memory: <long_term|short_term>`\n    - Writes content to your memory for context.\n    - Content follows on new lines, terminated by `EOF_PRIME`.\n    - Example:\n      ```primeactions\n      write_memory: short_term\n      The user wants to refactor the `console.rs` file.\n      EOF_PRIME\n      ```\n7. `clear_memory: <long_term|short_term>`\n    - Clears one of your memories.\n    - Example: `clear_memory: short_term`\n8. `create_tool: name=<name> desc=\"<description>\" args=\"<arg1 arg2 ...>\"`\n    - Creates a new custom tool script in ./prime/tool_<name>.{sh|ps1} (OS-appropriate).\n    - The script content follows on new lines, terminated by `EOF_PRIME`. Include the required header in the content.\n    - After creation, it is immediately available for use in subsequent turns.\n    - Example (Bash):\n      ```primeactions\n      create_tool: name=grep_files desc=\"Search files for pattern in path\" args=\"pattern path\"\n      #!/bin/bash\n      ## TOOL: name=grep_files desc=\"Search files for pattern in path\" args=\"pattern path\"\n      pattern=\"$1\"\n      path=\"${2:-.}\"\n      grep -r --color=never \"$pattern\" \"$path\" 2>/dev/null || echo \"No matches.\"\n      EOF_PRIME\n      ```\n    - PowerShell example:\n      ```primeactions\n      create_tool: name=grep_files desc=\"Search files for pattern in path\" args=\"pattern path\"\n      param([string]$pattern, [string]$path = \".\")\n      ## TOOL: name=grep_files desc=\"Search files for pattern in path\" args=\"pattern path\"\n      Get-ChildItem -Path $path -Recurse -ErrorAction SilentlyContinue | Select-String -Pattern $pattern | ForEach-Object { $_.Line }\n      EOF_PRIME\n      ```\n";

/// The prompt's opening: the response format and the action syntax.
pub const PROMPT_OPENING: &'static str = "\nYou are an AI assistant. Your goal is to help the user by executing commands on their system.\n**RESPONSE FORMAT**\nYour response must contain your plan and reasoning in plain text. If you need to perform actions, you must follow it with a single `primeactions` fenced code block.\n**ACTION SYNTAX**\n```primeactions\ntool_name: arguments\nanother_tool: some other arguments\n```\n";

/// The prompt's part between the tools and the operating system.
pub const PROMPT_RESULTS: &'static str = "\n**TOOL RESULTS**\nAfter you provide a `primeactions` block, I will execute the tools and return the output to you. If a command fails, I will return only the error, and you must formulate a new plan to fix it.\n<CONTEXT>\nOS: ";

/// The note for custom tools, after their list.
pub const CUSTOM_TOOLS_NOTE: &'static str = "\nFor custom tools, use `tool_name: arg1 arg2` (space-separated).";

/// The example call of a custom tool, from the first two words of its
/// argument list.
pub open spec fn tool_example(name: Seq<char>, args: Seq<char>) -> Seq<char> {
    let w = words(args);
    if w.len() >= 2 {
        " (e.g., "@ + name + ": "@ + w[0] + " "@ + w[1] + ")"@
    } else if w.len() == 1 {
        " (e.g., "@ + name + ": "@ + w[0] + ")"@
    } else {
        Seq::empty()
    }
}

/// The entry of the custom tool with the given number.
pub open spec fn tool_entry(num: nat, t: DiscoveredTool) -> Seq<char> {
    "\n"@ + decimal(num) + ". `"@ + t.name@ + "` - "@ + t.desc@ + tool_example(t.name@, t.args@)
}

/// The entries of the custom tools, numbered from 9 on.
pub open spec fn tool_entries(ts: Seq<DiscoveredTool>) -> Seq<char>
    decreases ts.len(),
{
    if ts.len() == 0 {
        Seq::empty()
    } else {
        tool_entries(ts.drop_last()) + tool_entry((8 + ts.len()) as nat, ts.last())
    }
}

/// The tools part of the prompt: the built-in tools, then the custom ones
/// with a note on how to call them.
pub open spec fn tools_section(ts: Seq<DiscoveredTool>) -> Seq<char> {
    BUILTIN_TOOLS@ + tool_entries(ts) + if ts.len() == 0 {
        Seq::empty()
    } else {
        CUSTOM_TOOLS_NOTE@
    }
}

/// The system prompt: the format, the tools, the context (operating system,
/// working directory and memory) and the behavioral rules.
pub open spec fn system_prompt_text(
    ts: Seq<DiscoveredTool>,
    os: Seq<char>,
    working_dir: Seq<char>,
    memory: Seq<char>,
) -> Seq<char> {
    PROMPT_OPENING@ + tools_section(ts) + PROMPT_RESULTS@ + os + "\nWorking Directory: "@
        + working_dir + "\n"@ + memory + "\n</CONTEXT>\n--- BEGIN BEHAVIORAL PROMPT ---\n"@
        + BEHAVIORAL_PROMPT@ + "\n--- END BEHAVIORAL PROMPT ---\nNow, begin.\n"@
}

/// The example call of a custom tool, from the first two words of its
/// argument list.
fn tool_example_of(name: &str, args: &str) -> (r: Vec<char>)
    ensures
        r@ == tool_example(name@, args@),
{
    let w = words_of(&chars_of(args));
    let mut r: Vec<char> = Vec::new();
    if w.len() >= 2 {
        push_str(&mut r, " (e.g., ");
        push_str(&mut r, name);
        push_str(&mut r, ": ");
        push_chars(&mut r, &w[0]);
        push_str(&mut r, " ");
        push_chars(&mut r, &w[1]);
        push_str(&mut r, ")");
    } else if w.len() == 1 {
        push_str(&mut r, " (e.g., ");
        push_str(&mut r, name);
        push_str(&mut r, ": ");
        push_chars(&mut r, &w[0]);
        push_str(&mut r, ")");
    }
    r
}

/// The tools part of the prompt: the built-in tools, then the custom ones,
/// numbered from 9 on with an example call each, and a note on how to call
/// them.
pub fn tools_section_of(tools: &Vec<DiscoveredTool>) -> (r: String)
    requires
        tools.len() + 9 <= usize::MAX,
    ensures
        r@ == tools_section(tools@),
{
    let mut out = chars_of(BUILTIN_TOOLS);
    let mut i: usize = 0;
    while i < tools.len()
        invariant
            i <= tools.len(),
            tools.len() + 9 <= usize::MAX,
            out@ == BUILTIN_TOOLS@ + tool_entries(tools@.take(i as int)),
        decreases tools.len() - i,
    {
        let t = &tools[i];
        push_str(&mut out, "\n");
        push_chars(&mut out, &decimal_chars(9 + i));
        push_str(&mut out, ". `");
        push_str(&mut out, t.name.as_str());
        push_str(&mut out, "` - ");
        push_str(&mut out, t.desc.as_str());
        push_chars(&mut out, &tool_example_of(t.name.as_str(), t.args.as_str()));
        assert(tools@.take(i + 1).drop_last() =~= tools@.take(i as int));
        i = i + 1;
    }
    assert(tools@.take(tools.len() as int) =~= tools@);
    if tools.len() > 0 {
        push_str(&mut out, CUSTOM_TOOLS_NOTE);
    }
    string_of(&out)
}

/// The system prompt: the format, the tools, the context (operating system,
/// working directory and memory) and the behavioral rules.
pub fn system_prompt(
    tools: &Vec<DiscoveredTool>,
    os: &str,
    working_dir: &str,
    memory: &str,
) -> (r: String)
    requires
        tools.len() + 9 <= usize::MAX,
    ensures
        r@ == system_prompt_text(tools@, os@, working_dir@, memory@),
{
    let mut out = chars_of(PROMPT_OPENING);
    push_str(&mut out, tools_section_of(tools).as_str());
    push_str(&mut out, PROMPT_RESULTS);
    push_str(&mut out, os);
    push_str(&mut out, "\nWorking Directory: ");
    push_str(&mut out, working_dir);
    push_str(&mut out, "\n");
    push_str(&mut out, memory);
    push_str(&mut out, "\n</CONTEXT>\n--- BEGIN BEHAVIORAL PROMPT ---\n");
    push_str(&mut out, BEHAVIORAL_PROMPT);
    push_str(&mut out, "\n--- END BEHAVIORAL PROMPT ---\nNow, begin.\n");
    string_of(&out)
}

} // verus!
