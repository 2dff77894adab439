//! Settings: defaults and the "ask me before" command patterns.
use vstd::prelude::*;
use crate::text::{
    chars_of, lemma_string_views_push, lines, lines_of, starts_with, string_of, string_views,
    trim, trim_chars,
};

verus! {

/// The model provider used when none is configured.
pub fn default_provider() -> (r: String)
    ensures
        r@ == "google"@,
{
    string_of(&chars_of("google"))
}

/// The token limit used when none is configured.
pub fn default_max_tokens() -> (r: u32)
    ensures
        r == 8192,
{
    8192
}

/// The API key used when none is configured: none.
pub fn default_api_key() -> (r: String)
    ensures
        r@ == Seq::<char>::empty(),
{
    String::new()
}

/// The command patterns that call for confirmation when nothing else is
/// configured.
pub open spec fn default_ask_patterns() -> Seq<Seq<char>> {
    seq![
        "rm -rf"@,
        "rm -r"@,
        "mkfs"@,
        "fdisk"@,
        "format"@,
        "dd if="@,
        "shred"@,
        ":(){:|:&};:"@,
        "chmod -R 777"@,
        "mv /* /dev/null"@,
    ]
}

/// The path patterns that directory listings leave out when nothing else is
/// configured.
pub open spec fn default_ignored_paths() -> Seq<Seq<char>> {
    seq![
        "**/node_modules/**"@,
        "**/target/**"@,
        "**/.git/**"@,
        "**/.hg/**"@,
        "**/.svn/**"@,
        "**/__pycache__/**"@,
        "**/.DS_Store"@,
        "**/*.pyc"@,
        "**/*.swp"@,
        "**/.idea/**"@,
        "**/.vscode/**"@,
        "**/build/**"@,
        "**/dist/**"@,
        "**/.cache/**"@,
    ]
}

/// Strings of the given string slices.
fn strings_from(v: &Vec<&str>) -> (r: Vec<String>)
    ensures
        r@.len() == v@.len(),
        forall|i: int| 0 <= i < v@.len() ==> #[trigger] r@[i]@ == v@[i]@,
{
    let mut r: Vec<String> = Vec::new();
    let mut i: usize = 0;
    while i < v.len()
        invariant
            i <= v.len(),
            r@.len() == i,
            forall|j: int| 0 <= j < i ==> #[trigger] r@[j]@ == v@[j]@,
        decreases v.len() - i,
    {
        r.push(string_of(&chars_of(v[i])));
        i = i + 1;
    }
    r
}

/// The default "ask me before" patterns.
pub fn default_ask_me_before_patterns() -> (r: Vec<String>)
    ensures
        string_views(r@) == default_ask_patterns(),
{
    let v = vec![
        "rm -rf",
        "rm -r",
        "mkfs",
        "fdisk",
        "format",
        "dd if=",
        "shred",
        ":(){:|:&};:",
        "chmod -R 777",
        "mv /* /dev/null",
    ];
    let r = strings_from(&v);
    assert(string_views(r@) =~= default_ask_patterns());
    r
}

/// The default ignored path patterns.
pub fn default_ignored_paths_list() -> (r: Vec<String>)
    ensures
        string_views(r@) == default_ignored_paths(),
{
    let v = vec![
        "**/node_modules/**",
        "**/target/**",
        "**/.git/**",
        "**/.hg/**",
        "**/.svn/**",
        "**/__pycache__/**",
        "**/.DS_Store",
        "**/*.pyc",
        "**/*.swp",
        "**/.idea/**",
        "**/.vscode/**",
        "**/build/**",
        "**/dist/**",
        "**/.cache/**",
    ];
    let r = strings_from(&v);
    assert(string_views(r@) =~= default_ignored_paths());
    r
}

/// The patterns among the first `k` lines: each line trimmed, without the
/// empty ones and the comments (those starting with '#').
pub open spec fn pattern_lines(ls: Seq<Seq<char>>, k: int) -> Seq<Seq<char>>
    decreases k,
{
    if k <= 0 || k > ls.len() {
        Seq::empty()
    } else {
        let t = trim(ls[k - 1]);
        if t.len() > 0 && !starts_with(t, seq!['#']) {
            pattern_lines(ls, k - 1).push(t)
        } else {
            pattern_lines(ls, k - 1)
        }
    }
}

/// The patterns of a pattern file, or the defaults when the file is absent
/// or holds none.
pub open spec fn patterns_or(content: Option<Seq<char>>, defaults: Seq<Seq<char>>) -> Seq<Seq<char>> {
    match content {
        Some(c) => {
            let ps = pattern_lines(lines(c), lines(c).len() as int);
            if ps.len() > 0 {
                ps
            } else {
                defaults
            }
        },
        None => defaults,
    }
}

/// The patterns among the lines of a pattern file.
pub fn patterns_in(content: &str) -> (r: Vec<String>)
    ensures
        string_views(r@) == pattern_lines(lines(content@), lines(content@).len() as int),
{
    let c = chars_of(content);
    let ls = lines_of(&c);
    let ghost lv = crate::text::views(ls@);
    let mut r: Vec<String> = Vec::new();
    let mut i: usize = 0;
    while i < ls.len()
        invariant
            i <= ls.len(),
            lv == crate::text::views(ls@),
            lv == lines(content@),
            string_views(r@) == pattern_lines(lv, i as int),
        decreases ls.len() - i,
    {
        let t = trim_chars(&ls[i]);
        assert(lv[i as int] == ls@[i as int]@);
        proof {
            if t@.len() > 0 {
                if t@[0] == '#' {
                    assert(t@.take(1) =~= seq!['#']);
                } else {
                    assert(t@.take(1)[0] != '#');
                }
            }
        }
        if t.len() > 0 && t[0] != '#' {
            let s = string_of(&t);
            proof {
                lemma_string_views_push(r@, s);
            }
            r.push(s);
        }
        assert(t@.len() > 0 ==> (starts_with(t@, seq!['#']) <==> t@[0] == '#')) by {
            if t@.len() > 0 {
                assert(t@.take(1) =~= seq![t@[0]]);
            }
        }
        i = i + 1;
    }
    r
}

/// The patterns of a pattern file's text, if there is one, else the
/// defaults when it holds none; and whether the defaults were taken (they
/// are then to be written to the file).
pub fn patterns_or_defaults(file_content: Option<&str>, defaults: Vec<String>) -> (r: (Vec<String>, bool))
    ensures
        string_views(r.0@) == patterns_or(
            match file_content {
                Some(c) => Some(c@),
                None => None,
            },
            string_views(defaults@),
        ),
        r.1 == match file_content {
            Some(c) => pattern_lines(lines(c@), lines(c@).len() as int).len() == 0,
            None => true,
        },
{
    match file_content {
        Some(c) => {
            let ps = patterns_in(c);
            if ps.len() > 0 {
                (ps, false)
            } else {
                (defaults, true)
            }
        },
        None => (defaults, true),
    }
}

/// The "ask me before" patterns given the text of the pattern file, if
/// there is one: its patterns, or the defaults when it holds none.
pub fn load_ask_me_before_patterns(file_content: Option<&str>) -> (r: Vec<String>)
    ensures
        string_views(r@) == patterns_or(
            match file_content {
                Some(c) => Some(c@),
                None => None,
            },
            default_ask_patterns(),
        ),
{
    match file_content {
        Some(c) => {
            let ps = patterns_in(c);
            if ps.len() > 0 {
                ps
            } else {
                default_ask_me_before_patterns()
            }
        },
        None => default_ask_me_before_patterns(),
    }
}

/// Whether a glob pattern compiles, as `glob::Pattern::new` decides it.
pub uninterp spec fn valid_glob(pattern: Seq<char>) -> bool;

/// `glob::Pattern::new`: whether the pattern compiles is `valid_glob` of
/// its text.
#[verifier::external_body]
fn glob_compiles(pattern: &str) -> (r: bool)
    ensures
        r == valid_glob(pattern@),
{
    glob::Pattern::new(pattern).is_ok()
}

/// Why the configuration could not be loaded.
#[derive(Debug, PartialEq, Eq, Clone)]
pub enum ConfigError {
    /// An ignored path pattern does not compile; holds it.
    InvalidGlob(String),
}

impl ConfigError {
    /// The message that describes the error.
    pub fn message(&self) -> (r: String)
        ensures
            self matches ConfigError::InvalidGlob(p) ==> r@ == "Invalid glob pattern in ignored paths: "@
                + p@,
    {
        match self {
            ConfigError::InvalidGlob(p) => {
                let mut v = chars_of("Invalid glob pattern in ignored paths: ");
                crate::text::push_str(&mut v, p.as_str());
                string_of(&v)
            },
        }
    }
}

/// The index of the first pattern, from `i` on, that does not compile.
pub open spec fn first_invalid(ps: Seq<Seq<char>>, i: int) -> Option<int>
    decreases ps.len() - i,
{
    if i < 0 || i >= ps.len() {
        None
    } else if !valid_glob(ps[i]) {
        Some(i)
    } else {
        first_invalid(ps, i + 1)
    }
}

/// The ignored path patterns given the text of their file, if there is one:
/// its patterns, or the defaults when it holds none; an error for the first
/// pattern that does not compile.
pub fn load_ignored_path_patterns(file_content: Option<&str>) -> (r: Result<Vec<String>, ConfigError>)
    ensures
        ({
            let ps = patterns_or(
                match file_content {
                    Some(c) => Some(c@),
                    None => None,
                },
                default_ignored_paths(),
            );
            match first_invalid(ps, 0) {
                Some(i) => r matches Err(ConfigError::InvalidGlob(p)) && p@ == ps[i],
                None => r matches Ok(v) && string_views(v@) == ps,
            }
        }),
{
    let ps = match file_content {
        Some(c) => {
            let ps = patterns_in(c);
            if ps.len() > 0 {
                ps
            } else {
                default_ignored_paths_list()
            }
        },
        None => default_ignored_paths_list(),
    };
    let ghost pv = string_views(ps@);
    assert(pv == patterns_or(
        match file_content {
            Some(c) => Some(c@),
            None => None,
        },
        default_ignored_paths(),
    ));
    let mut i: usize = 0;
    while i < ps.len()
        invariant
            i <= ps.len(),
            pv == string_views(ps@),
            pv == patterns_or(
                match file_content {
                    Some(c) => Some(c@),
                    None => None,
                },
                default_ignored_paths(),
            ),
            first_invalid(pv, 0) == first_invalid(pv, i as int),
        decreases ps.len() - i,
    {
        assert(pv[i as int] == ps@[i as int]@);
        if !glob_compiles(ps[i].as_str()) {
            return Err(ConfigError::InvalidGlob(string_of(&chars_of(ps[i].as_str()))));
        }
        i = i + 1;
    }
    Ok(ps)
}

} // verus!
