//! The action documentation offered to the model, chosen per turn.
use vstd::prelude::*;
use crate::text::{chars_of, string_of, trim, trim_chars};

verus! {

/// What is known of the current turn.
pub struct ActionContext<'a> {
    pub user_input: &'a str,
    pub cwd: &'a str,
    /// The script interpreters found, such as "python3", "node" or "bash".
    pub has_interpreters: Vec<&'a str>,
}

/// When an action is offered.
#[derive(Debug, Clone, Copy, PartialEq, Eq)]
pub enum Availability {
    /// On every turn.
    Always,
    /// When at least one script interpreter is present.
    WithInterpreter,
}

/// An action as it is shown to the model.
pub struct ActionDoc {
    /// What the prompt shows: the tool syntax and when to use it.
    pub prompt_snippet: String,
    /// When the action is shown.
    pub when: Availability,
    /// A stable name for metrics.
    pub name: &'static str,
}

/// The actions the prompt can offer.
pub struct ActionRegistry {
    actions: Vec<ActionDoc>,
}

/// Whether an action with the given availability is shown in the context.
pub open spec fn applies(when: Availability, ctx: ActionContext) -> bool {
    match when {
        Availability::Always => true,
        Availability::WithInterpreter => ctx.has_interpreters@.len() > 0,
    }
}

/// The first `k` documents that apply in the context, in order.
pub open spec fn selected(docs: Seq<ActionDoc>, ctx: ActionContext, k: int) -> Seq<ActionDoc>
    decreases k,
{
    if k <= 0 || k > docs.len() {
        Seq::empty()
    } else {
        let prev = selected(docs, ctx, k - 1);
        if applies(docs[k - 1].when, ctx) {
            prev.push(docs[k - 1])
        } else {
            prev
        }
    }
}

/// The snippet of the core tools.
pub open spec fn core_snippet() -> Seq<char> {
    trim(
        "```primeactions
shell: <command>
list_dir: <path>
read_file: <path> [lines=START-END]
write_file: <path> [append=true]
<content>
EOF_PRIME
```"@,
    )
}

/// The snippet of the script tool.
pub open spec fn run_script_snippet() -> Seq<char> {
    trim(
        "Use when writing a short script is simpler than inline shell:
```primeactions
run_script: lang=<python|node|bash|pwsh|ruby|php> [args=\"...\"] [timeout=30]
<code>
EOF_PRIME
```"@,
    )
}

/// The snippet of the memory tools.
pub open spec fn memory_snippet() -> Seq<char> {
    trim(
        "Memory:
```primeactions
write_memory: long_term
<content>
EOF_PRIME
clear_memory: short_term
```"@,
    )
}

impl ActionRegistry {
    /// The actions, in the order they are offered.
    pub closed spec fn docs(&self) -> Seq<ActionDoc> {
        self.actions@
    }

    /// The built-in actions: the core tools and the memory tools on every
    /// turn, the script tool when an interpreter is present.
    pub fn default() -> (r: Self)
        ensures
            r.docs().len() == 3,
            r.docs()[0].name@ == "core_prime_tools"@,
            r.docs()[0].prompt_snippet@ == core_snippet(),
            r.docs()[0].when == Availability::Always,
            r.docs()[1].name@ == "run_script"@,
            r.docs()[1].prompt_snippet@ == run_script_snippet(),
            r.docs()[1].when == Availability::WithInterpreter,
            r.docs()[2].name@ == "memory_tools"@,
            r.docs()[2].prompt_snippet@ == memory_snippet(),
            r.docs()[2].when == Availability::Always,
    {
        let mut v: Vec<ActionDoc> = Vec::new();
        let core = chars_of(
            "```primeactions
shell: <command>
list_dir: <path>
read_file: <path> [lines=START-END]
write_file: <path> [append=true]
<content>
EOF_PRIME
```",
        );
        v.push(
            ActionDoc {
                name: "core_prime_tools",
                prompt_snippet: string_of(&trim_chars(&core)),
                when: Availability::Always,
            },
        );
        let script = chars_of(
            "Use when writing a short script is simpler than inline shell:
```primeactions
run_script: lang=<python|node|bash|pwsh|ruby|php> [args=\"...\"] [timeout=30]
<code>
EOF_PRIME
```",
        );
        v.push(
            ActionDoc {
                name: "run_script",
                prompt_snippet: string_of(&trim_chars(&script)),
                when: Availability::WithInterpreter,
            },
        );
        let memory = chars_of(
            "Memory:
```primeactions
write_memory: long_term
<content>
EOF_PRIME
clear_memory: short_term
```",
        );
        v.push(
            ActionDoc {
                name: "memory_tools",
                prompt_snippet: string_of(&trim_chars(&memory)),
                when: Availability::Always,
            },
        );
        ActionRegistry { actions: v }
    }

    /// The actions to show in the context, in order.
    pub fn select_for(&self, ctx: &ActionContext) -> (r: Vec<&ActionDoc>)
        ensures
            r@.len() == selected(self.docs(), *ctx, self.docs().len() as int).len(),
            forall|i: int|
                0 <= i < r@.len() ==> *r@[i] == selected(self.docs(), *ctx, self.docs().len() as int)[i],
    {
        let mut r: Vec<&ActionDoc> = Vec::new();
        let mut i: usize = 0;
        while i < self.actions.len()
            invariant
                i <= self.actions.len(),
                r@.len() == selected(self.actions@, *ctx, i as int).len(),
                forall|j: int|
                    0 <= j < r@.len() ==> *r@[j] == selected(self.actions@, *ctx, i as int)[j],
            decreases self.actions.len() - i,
        {
            let doc = &self.actions[i];
            let shown = match doc.when {
                Availability::Always => true,
                Availability::WithInterpreter => ctx.has_interpreters.len() > 0,
            };
            if shown {
                r.push(doc);
            }
            i = i + 1;
        }
        r
    }
}

} // verus!
