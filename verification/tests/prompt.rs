use prime::prompt::{system_prompt, tools_section_of, BEHAVIORAL_PROMPT, BUILTIN_TOOLS};
use prime::session::DiscoveredTool;

fn tool(name: &str, desc: &str, args: &str) -> DiscoveredTool {
    DiscoveredTool { name: name.to_string(), desc: desc.to_string(), args: args.to_string(), path: String::new() }
}

#[test]
fn tools_section_numbers_custom_tools() {
    assert_eq!(tools_section_of(&vec![]), BUILTIN_TOOLS);
    let section = tools_section_of(&vec![tool("grep", "Search", "pattern path"), tool("say", "Speak", "text"), tool("now", "Time", "  ")]);
    assert!(section.starts_with(BUILTIN_TOOLS));
    assert!(section.ends_with(
        "\n9. `grep` - Search (e.g., grep: pattern path)\n10. `say` - Speak (e.g., say: text)\n11. `now` - Time\nFor custom tools, use `tool_name: arg1 arg2` (space-separated)."
    ));
}

#[test]
fn system_prompt_holds_the_context() {
    let p = system_prompt(&vec![], "linux", "/home/u", "MEM");
    assert!(p.contains("<CONTEXT>\nOS: linux\nWorking Directory: /home/u\nMEM\n</CONTEXT>"));
    assert!(p.contains(BEHAVIORAL_PROMPT));
    assert!(p.ends_with("\n--- END BEHAVIORAL PROMPT ---\nNow, begin.\n"));
    assert!(p.starts_with("\nYou are an AI assistant."));
}
