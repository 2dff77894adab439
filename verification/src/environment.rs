//! What is known of the machine the assistant runs on.
use vstd::prelude::*;
use crate::text::{
    chars_of, join, join_chars, lemma_views_push, push_chars, push_str, string_of, views, words,
    words_of,
};

verus! {

/// Facts about the environment.
#[derive(Debug, Clone)]
pub struct EnvironmentInfo {
    pub os: String,
    pub python_version: Option<String>,
    pub pip_version: Option<String>,
    pub has_sudo: bool,
    pub in_venv: bool,
    pub has_git: bool,
    pub has_npm: bool,
    pub has_docker: bool,
    pub has_rust: bool,
    pub shell: Option<String>,
}

/// Finds out facts about the environment.
pub struct EnvironmentDetector;

/// The parts of the summary: the OS, then the Python and pip versions, an
/// active virtual environment and the tools found, each where present.
pub open spec fn summary_parts(info: EnvironmentInfo) -> Seq<Seq<char>> {
    let tools = (if info.has_git {
        seq!["git"@]
    } else {
        Seq::empty()
    }) + (if info.has_npm {
        seq!["npm"@]
    } else {
        Seq::empty()
    }) + (if info.has_docker {
        seq!["docker"@]
    } else {
        Seq::empty()
    }) + (if info.has_rust {
        seq!["rust"@]
    } else {
        Seq::empty()
    });
    seq!["OS: "@ + info.os@] + (match info.python_version {
        Some(py) => seq!["Python: "@ + py@],
        None => Seq::empty(),
    }) + (match info.pip_version {
        Some(pip) => seq!["Pip: "@ + pip@],
        None => Seq::empty(),
    }) + (if info.in_venv {
        seq!["Virtual Env: Active"@]
    } else {
        Seq::empty()
    }) + (if tools.len() > 0 {
        seq!["Tools: "@ + join(tools, ", "@)]
    } else {
        Seq::empty()
    })
}

/// Appends a string to a list of character sequences.
fn push_part(parts: &mut Vec<Vec<char>>, part: Vec<char>)
    ensures
        views(final(parts)@) == views(old(parts)@).push(part@),
{
    proof {
        lemma_views_push(parts@, part);
    }
    parts.push(part);
}

impl EnvironmentInfo {
    /// A one-line summary: the parts joined with " | ".
    pub fn summary(&self) -> (r: String)
        ensures
            r@ == join(summary_parts(*self), " | "@),
    {
        let mut parts: Vec<Vec<char>> = Vec::new();
        let mut os = chars_of("OS: ");
        push_str(&mut os, self.os.as_str());
        push_part(&mut parts, os);
        if let Some(py) = &self.python_version {
            let mut p = chars_of("Python: ");
            push_str(&mut p, py.as_str());
            push_part(&mut parts, p);
        }
        if let Some(pip) = &self.pip_version {
            let mut p = chars_of("Pip: ");
            push_str(&mut p, pip.as_str());
            push_part(&mut parts, p);
        }
        if self.in_venv {
            push_part(&mut parts, chars_of("Virtual Env: Active"));
        }
        let mut tools: Vec<Vec<char>> = Vec::new();
        if self.has_git {
            push_part(&mut tools, chars_of("git"));
        }
        if self.has_npm {
            push_part(&mut tools, chars_of("npm"));
        }
        if self.has_docker {
            push_part(&mut tools, chars_of("docker"));
        }
        if self.has_rust {
            push_part(&mut tools, chars_of("rust"));
        }
        let ghost tool_names = (if self.has_git {
            seq!["git"@]
        } else {
            Seq::empty()
        }) + (if self.has_npm {
            seq!["npm"@]
        } else {
            Seq::empty()
        }) + (if self.has_docker {
            seq!["docker"@]
        } else {
            Seq::empty()
        }) + (if self.has_rust {
            seq!["rust"@]
        } else {
            Seq::empty()
        });
        assert(views(tools@) =~= tool_names);
        if tools.len() > 0 {
            let mut t = chars_of("Tools: ");
            let sep = chars_of(", ");
            let joined = join_chars(&tools, &sep);
            push_chars(&mut t, &joined);
            push_part(&mut parts, t);
        }
        assert(views(parts@) =~= summary_parts(*self));
        let bar = chars_of(" | ");
        string_of(&join_chars(&parts, &bar))
    }
}

impl EnvironmentDetector {
    /// A detector.
    pub fn new() -> (d: Self) {
        EnvironmentDetector
    }
}

/// The version in the output of a `--version` command, such as
/// "Python 3.9.0" or "pip 20.2.3 from ...": its second word.
pub fn version_from_output(output: &str) -> (r: Option<String>)
    ensures
        words(output@).len() >= 2 ==> (r matches Some(v) && v@ == words(output@)[1]),
        words(output@).len() < 2 ==> r is None,
{
    let c = chars_of(output);
    let ws = words_of(&c);
    if ws.len() >= 2 {
        assert(views(ws@)[1] == ws@[1]@);
        Some(string_of(&ws[1]))
    } else {
        None
    }
}

/// The name of a shell from its path: what follows the last '/'.
pub fn shell_name(path: &str) -> (r: String)
    ensures
        exists|k: int|
            0 <= k <= path@.len() && r@ == path@.skip(k) && (k == 0 || path@[k - 1] == '/')
                && forall|j: int| k <= j < path@.len() ==> path@[j] != '/',
{
    let c = chars_of(path);
    let mut k: usize = c.len();
    while k > 0 && c[k - 1] != '/'
        invariant
            k <= c.len(),
            forall|j: int| k <= j < c@.len() ==> c@[j] != '/',
        decreases k,
    {
        k = k - 1;
    }
    let tail = crate::text::slice_chars(&c, k, c.len());
    assert(tail@ =~= path@.skip(k as int));
    string_of(&tail)
}

} // verus!
