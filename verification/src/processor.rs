//! Decisions about shell commands: the retry strategies of an install, the
//! commands to confirm first, and how a command's output is put together.
use vstd::prelude::*;
use crate::cache::{fresh_commands, fresh_result, result_view, CommandCache};
use crate::commands::{lossy, lossy_text};
use crate::text::{
    strip_leading, strip_leading_chars, chars_of, contains, contains_chars, contains_str, join, join_chars, lines, lines_of, push_chars,
    push_str, slice_chars, starts_with, starts_with_chars, string_of, trim, trim_chars, views,
};

verus! {

/// A command and the commands to try when it fails.
#[derive(Debug, Clone)]
pub struct ExecutionStrategy {
    pub primary: String,
    pub fallbacks: Vec<String>,
}

/// The lower-case text of a string, as `str::to_lowercase` gives it.
pub uninterp spec fn lowercase(s: Seq<char>) -> Seq<char>;

/// `str::to_lowercase`: the result is `lowercase` of the text, a function
/// of the text alone (Unicode's case mapping, with no locale).
#[verifier::external_body]
pub(crate) fn to_lower(s: &str) -> (r: String)
    ensures
        r@ == lowercase(s@),
{
    s.to_lowercase()
}

/// The commands to try, in order, for a command: the command itself, and for
/// `pip install` and `npm install` the same install in other forms.
pub open spec fn strategies(command: Seq<char>) -> Seq<Seq<char>> {
    if starts_with(command, "pip install"@) {
        let package = trim(strip_leading(command, "pip install"@));
        seq![
            command,
            "pip install --user "@ + package,
            "python -m pip install "@ + package,
            "pip3 install "@ + package,
        ]
    } else if starts_with(command, "npm install"@) {
        let package = trim(strip_leading(command, "npm install"@));
        seq![command, "npm install --no-save "@ + package, "yarn add "@ + package]
    } else {
        seq![command]
    }
}

/// The install command `prefix` + the package.
fn install_command(prefix: &str, package: &Vec<char>) -> (r: String)
    ensures
        r@ == prefix@ + package@,
{
    let mut v = chars_of(prefix);
    push_chars(&mut v, package);
    string_of(&v)
}

/// The commands to try, in order, for a command: the command itself, and for
/// `pip install` and `npm install` the same install in other forms.
pub(crate) fn get_execution_strategies(command: &str) -> (r: Vec<String>)
    ensures
        r@.map_values(|s: String| s@) == strategies(command@),
{
    let c = chars_of(command);
    let mut r: Vec<String> = Vec::new();
    r.push(string_of(&c));
    if starts_with_chars(&c, &chars_of("pip install")) {
        let package = trim_chars(&strip_leading_chars(&c, &chars_of("pip install")));
        r.push(install_command("pip install --user ", &package));
        r.push(install_command("python -m pip install ", &package));
        r.push(install_command("pip3 install ", &package));
        assert(r@.map_values(|s: String| s@) =~= strategies(command@));
    } else if starts_with_chars(&c, &chars_of("npm install")) {
        let package = trim_chars(&strip_leading_chars(&c, &chars_of("npm install")));
        r.push(install_command("npm install --no-save ", &package));
        r.push(install_command("yarn add ", &package));
        assert(r@.map_values(|s: String| s@) =~= strategies(command@));
    } else {
        assert(r@.map_values(|s: String| s@) =~= strategies(command@));
    }
    r
}

/// Whether a command contains, ignoring case, one of the patterns that ask
/// for a confirmation first.
pub open spec fn asks_first(command: Seq<char>, patterns: Seq<Seq<char>>) -> bool {
    exists|i: int| 0 <= i < patterns.len() && contains(lowercase(trim(command)), lowercase(patterns[i]))
}

/// Whether a command contains, ignoring case, one of the patterns that ask
/// for a confirmation first.
pub(crate) fn is_ask_me_before_command(command: &str, patterns: &Vec<String>) -> (r: bool)
    ensures
        r == asks_first(command@, patterns@.map_values(|s: String| s@)),
{
    let ghost pv = patterns@.map_values(|s: String| s@);
    let t = string_of(&trim_chars(&chars_of(command)));
    let lower = chars_of(to_lower(t.as_str()).as_str());
    let mut i: usize = 0;
    while i < patterns.len()
        invariant
            i <= patterns.len(),
            pv == patterns@.map_values(|s: String| s@),
            lower@ == lowercase(trim(command@)),
            forall|j: int| 0 <= j < i ==> !contains(lower@, lowercase(#[trigger] pv[j])),
        decreases patterns.len() - i,
    {
        let p = chars_of(to_lower(patterns[i].as_str()).as_str());
        if contains_chars(&lower, &p) {
            assert(contains(lowercase(trim(command@)), lowercase(pv[i as int])));
            return true;
        }
        i = i + 1;
    }
    false
}

/// Whether a command runs through the retry strategies: it chains nothing
/// with `&&` or a pipe.
pub fn uses_strategies(command: &str) -> (r: bool)
    ensures
        r == (!contains(trim(command@), "&&"@) && !contains(trim(command@), "|"@)),
{
    let c = trim_chars(&chars_of(command));
    !crate::text::contains_str(&c, "&&") && !crate::text::contains_str(&c, "|")
}

/// The output of a command from its standard output and error: the error
/// after the output, under a `STDERR:` line, when there is any.
pub open spec fn command_text(stdout: Seq<char>, stderr: Seq<char>) -> Seq<char> {
    if stderr.len() == 0 {
        stdout
    } else if stdout.len() == 0 {
        "STDERR:\n"@ + stderr
    } else {
        stdout + "\n\nSTDERR:\n"@ + stderr
    }
}

/// The output of a command from the bytes of its standard output and error,
/// each read as text: the error after the output, under a `STDERR:` line,
/// when there is any.
pub fn command_output(stdout: &[u8], stderr: &[u8]) -> (r: String)
    ensures
        r@ == command_text(lossy_text(stdout@), lossy_text(stderr@)),
{
    let out = chars_of(lossy(stdout).as_str());
    let err = chars_of(lossy(stderr).as_str());
    if err.len() == 0 {
        string_of(&out)
    } else if out.len() == 0 {
        let mut v = chars_of("STDERR:\n");
        push_chars(&mut v, &err);
        string_of(&v)
    } else {
        let mut v = out;
        push_str(&mut v, "\n\nSTDERR:\n");
        push_chars(&mut v, &err);
        string_of(&v)
    }
}

/// The first `n` items, or all when there are fewer.
pub open spec fn first_lines(ls: Seq<Seq<char>>, n: nat) -> Seq<Seq<char>> {
    if ls.len() > n {
        ls.take(n as int)
    } else {
        ls
    }
}

/// The first five lines of a command's output, and whether it has more.
pub fn output_preview(output: &str) -> (r: (String, bool))
    ensures
        r.0@ == join(first_lines(lines(output@), 5), "\n"@),
        r.1 == (lines(output@).len() > 5),
{
    let ls = lines_of(&chars_of(output));
    let n: usize = if ls.len() > 5 { 5 } else { ls.len() };
    let mut kept: Vec<Vec<char>> = Vec::new();
    let mut i: usize = 0;
    while i < n
        invariant
            i <= n <= ls.len(),
            n == (if ls.len() > 5 { 5 } else { ls.len() }),
            views(kept@) == views(ls@).take(i as int),
        decreases n - i,
    {
        let line = slice_chars(&ls[i], 0, ls[i].len());
        assert(line@ =~= ls@[i as int]@);
        proof {
            crate::text::lemma_views_push(kept@, line);
        }
        kept.push(line);
        assert(views(ls@).take(i + 1) =~= views(ls@).take(i as int).push(ls@[i as int]@));
        i = i + 1;
    }
    assert(views(ls@).take(n as int) =~= first_lines(lines(output@), 5));
    let nl: Vec<char> = vec!['\n'];
    assert(nl@ =~= "\n"@) by {
        reveal_strlit("\n");
    }
    (string_of(&join_chars(&kept, &nl)), ls.len() > 5)
}

// ---------------------------------------------------------------------
// The command processor
// ---------------------------------------------------------------------

/// Runs shell commands through `sh -c`, with a cache of successful results
/// and the patterns of commands to confirm first.
pub struct CommandProcessor {
    command_cache: CommandCache,
    shell_command: String,
    shell_args: Vec<String>,
    ask_me_before_patterns: Vec<String>,
}

/// What to do next for a command run with fallbacks.
#[derive(Debug, PartialEq, Eq, Clone)]
pub enum RunStep {
    /// The command is done with this result.
    Finished(i32, String),
    /// Run this command in the shell and hand back its result.
    Execute(String),
}

/// Whether `r` is the step for a command `s` whose cached read gave `f`:
/// finishing with the cached result when there is one (a success only,
/// unless `any_code`), else running `s`.
pub open spec fn step_from(f: Option<(i32, Seq<char>)>, s: Seq<char>, any_code: bool, r: RunStep) -> bool {
    match f {
        Some(v) => if any_code || v.0 == 0 {
            r matches RunStep::Finished(c, o) && c == v.0 && o@ == v.1
        } else {
            r matches RunStep::Execute(x) && x@ == s
        },
        None => r matches RunStep::Execute(x) && x@ == s,
    }
}

/// The cached results after a command's result is recorded: a success is
/// stored, anything else leaves them as they were.
pub open spec fn recorded(
    results: Map<Seq<char>, (i32, Seq<char>)>,
    command: Seq<char>,
    code: i32,
    output: Seq<char>,
) -> Map<Seq<char>, (i32, Seq<char>)> {
    if code == 0 {
        results.insert(command, (code, output))
    } else {
        results
    }
}

/// A repeated command within the time to live is served from the cache
/// exactly when its run succeeded: once a result is recorded, a read of the
/// command while its entry is younger than the time to live gives that
/// result back if the exit code was 0, and otherwise gives what it gave
/// before.
pub proof fn law_repeat_within_ttl(
    results: Map<Seq<char>, (i32, Seq<char>)>,
    ttl: nat,
    command: Seq<char>,
    code: i32,
    output: Seq<char>,
    age: u128,
)
    requires
        age < ttl,
    ensures
        code == 0 ==> fresh_result(recorded(results, command, code, output), ttl, command, age) == Some(
            (code, output),
        ),
        code != 0 ==> fresh_result(recorded(results, command, code, output), ttl, command, age)
            == fresh_result(results, ttl, command, age),
{
}

/// The progress of a command run with fallbacks: its strategies and the one
/// being tried (past the last: the final run of the command itself).
#[derive(Debug, Clone)]
pub struct FallbackRun {
    command: String,
    strategies: Vec<String>,
    next: usize,
}

impl FallbackRun {
    /// The command being run.
    pub closed spec fn command(&self) -> Seq<char> {
        self.command@
    }

    /// The strategies, in order.
    pub closed spec fn strategy_list(&self) -> Seq<Seq<char>> {
        self.strategies@.map_values(|s: String| s@)
    }

    /// The index of the strategy being tried.
    pub closed spec fn position(&self) -> nat {
        self.next as nat
    }

    /// The index of the strategy being tried, counted from 1 as the messages
    /// count them.
    pub fn attempt(&self) -> (r: usize)
        requires
            self.position() < usize::MAX,
        ensures
            r == self.position() + 1,
    {
        self.next + 1
    }

    /// Whether strategies remain after the one being tried.
    pub fn has_more(&self) -> (r: bool)
        ensures
            r == (self.position() + 1 < self.strategy_list().len()),
    {
        self.next < self.strategies.len() && self.next + 1 < self.strategies.len()
    }
}

impl CommandProcessor {
    /// The cached results, by command.
    pub closed spec fn cached_results(&self) -> Map<Seq<char>, (i32, Seq<char>)> {
        self.command_cache.results()
    }

    /// How long a cached result lives, in milliseconds.
    pub closed spec fn cache_ttl_millis(&self) -> nat {
        self.command_cache.ttl_millis()
    }

    /// The commands of the cache's entries, in order.
    pub closed spec fn cache_commands(&self) -> Seq<Seq<char>> {
        self.command_cache.commands()
    }

    /// The patterns of commands to confirm first.
    pub closed spec fn patterns(&self) -> Seq<Seq<char>> {
        self.ask_me_before_patterns@.map_values(|s: String| s@)
    }

    /// A processor with an empty cache that runs commands through `sh -c`
    /// and asks before the commands that match the patterns.
    pub fn new(ask_me_before_patterns: Vec<String>) -> (r: Self)
        ensures
            r.cached_results() == Map::<Seq<char>, (i32, Seq<char>)>::empty(),
            r.cache_ttl_millis() == 300_000,
            r.patterns() == ask_me_before_patterns@.map_values(|s: String| s@),
    {
        let mut shell_args: Vec<String> = Vec::new();
        shell_args.push(string_of(&chars_of("-c")));
        CommandProcessor {
            command_cache: CommandCache::new(),
            shell_command: string_of(&chars_of("sh")),
            shell_args,
            ask_me_before_patterns,
        }
    }

    /// The program and the arguments that run a command: `sh -c command`.
    pub fn shell_invocation(&self, command: &str) -> (r: (String, Vec<String>))
        ensures
            r.0@ == "sh"@,
            r.1@.map_values(|s: String| s@) == seq!["-c"@, command@],
    {
        let mut args: Vec<String> = Vec::new();
        args.push(string_of(&chars_of("-c")));
        args.push(string_of(&chars_of(command)));
        assert(args@.map_values(|s: String| s@) =~= seq!["-c"@, command@]);
        (string_of(&chars_of("sh")), args)
    }

    /// The commands to try, in order, for a command.
    pub fn get_execution_strategies(&self, command: &str) -> (r: Vec<String>)
        ensures
            r@.map_values(|s: String| s@) == strategies(command@),
    {
        get_execution_strategies(command)
    }

    /// Whether a command contains, ignoring case, one of the patterns that
    /// ask for a confirmation first.
    pub fn is_ask_me_before_command(&self, command: &str) -> (r: bool)
        ensures
            r == asks_first(command@, self.patterns()),
    {
        is_ask_me_before_command(command, &self.ask_me_before_patterns)
    }

    /// The cached result of a command, if it is there and fresh: the result
    /// that a read gives at the age of the command's entry, which the clock
    /// gives.
    pub fn cached(&self, command: &str) -> (r: Option<(i32, String)>)
        ensures
            exists|age: u128|
                result_view(r) == #[trigger] fresh_result(
                    self.cached_results(),
                    self.cache_ttl_millis(),
                    command@,
                    age,
                ),
    {
        let r = self.command_cache.get(command);
        let ghost age = choose|age: u128|
            result_view(r) == #[trigger] fresh_result(
                self.command_cache.results(),
                self.command_cache.ttl_millis(),
                command@,
                age,
            );
        assert(result_view(r) == fresh_result(self.cached_results(), self.cache_ttl_millis(), command@, age));
        r
    }

    /// Keeps a command's result for later when it succeeded (exit code 0).
    pub fn record(&mut self, command: &str, result: &(i32, String))
        ensures
            final(self).cached_results() == recorded(old(self).cached_results(), command@, result.0, result.1@),
            final(self).cache_ttl_millis() == old(self).cache_ttl_millis(),
            final(self).patterns() == old(self).patterns(),
    {
        if result.0 == 0 {
            self.command_cache.set(
                string_of(&chars_of(command)),
                (result.0, string_of(&chars_of(result.1.as_str()))),
            );
        }
    }

    /// Drops the cached results that have outlived their time: those whose
    /// entries' ages, which the clock gives, are not below the time to live.
    pub fn maintain_cache(&mut self)
        ensures
            exists|ages: Seq<u128>|
                ages.len() == old(self).cache_commands().len() && final(self).cached_results() == old(
                    self,
                ).cached_results().restrict(
                    #[trigger] fresh_commands(old(self).cache_commands(), ages, old(self).cache_ttl_millis()),
                ),
            final(self).cache_ttl_millis() == old(self).cache_ttl_millis(),
            final(self).patterns() == old(self).patterns(),
    {
        let ghost before = self.command_cache;
        self.command_cache.clear_expired();
        let ghost ages = choose|ages: Seq<u128>|
            ages.len() == before.commands().len() && self.command_cache.results() == before.results().restrict(
                #[trigger] fresh_commands(before.commands(), ages, before.ttl_millis()),
            );
        assert(ages.len() == old(self).cache_commands().len() && self.cached_results() == old(
            self,
        ).cached_results().restrict(fresh_commands(old(self).cache_commands(), ages, old(self).cache_ttl_millis())));
    }

    /// Starts running a command with its strategies.
    pub fn begin_fallbacks(&self, command: &str) -> (r: FallbackRun)
        ensures
            r.command() == command@,
            r.strategy_list() == strategies(command@),
            r.position() == 0,
    {
        FallbackRun {
            command: string_of(&chars_of(command)),
            strategies: get_execution_strategies(command),
            next: 0,
        }
    }

    /// The next step of a run with fallbacks: a strategy whose success is
    /// cached finishes the run with it; else the strategy is run. Past the
    /// last strategy, the command itself: its cached result if there is
    /// one, else a final run.
    pub fn fallback_step(&self, run: &FallbackRun) -> (r: RunStep)
        requires
            run.position() <= run.strategy_list().len(),
        ensures
            run.position() < run.strategy_list().len() ==> exists|age: u128|
                step_from(
                    #[trigger] fresh_result(
                        self.cached_results(),
                        self.cache_ttl_millis(),
                        run.strategy_list()[run.position() as int],
                        age,
                    ),
                    run.strategy_list()[run.position() as int],
                    false,
                    r,
                ),
            run.position() == run.strategy_list().len() ==> exists|age: u128|
                step_from(
                    #[trigger] fresh_result(
                        self.cached_results(),
                        self.cache_ttl_millis(),
                        run.command(),
                        age,
                    ),
                    run.command(),
                    true,
                    r,
                ),
    {
        if run.next < run.strategies.len() {
            let s = run.strategies[run.next].as_str();
            assert(run.strategy_list()[run.position() as int] == s@);
            let c = self.cached(s);
            let ghost age = choose|age: u128|
                result_view(c) == #[trigger] fresh_result(
                    self.cached_results(),
                    self.cache_ttl_millis(),
                    s@,
                    age,
                );
            let r = match c {
                Some((code, o)) => {
                    if code == 0 {
                        RunStep::Finished(code, o)
                    } else {
                        RunStep::Execute(string_of(&chars_of(s)))
                    }
                },
                None => RunStep::Execute(string_of(&chars_of(s))),
            };
            assert(step_from(
                fresh_result(self.cached_results(), self.cache_ttl_millis(), s@, age),
                s@,
                false,
                r,
            ));
            r
        } else {
            let c = self.cached(run.command.as_str());
            let ghost age = choose|age: u128|
                result_view(c) == #[trigger] fresh_result(
                    self.cached_results(),
                    self.cache_ttl_millis(),
                    run.command@,
                    age,
                );
            let r = match c {
                Some((code, o)) => RunStep::Finished(code, o),
                None => RunStep::Execute(string_of(&chars_of(run.command.as_str()))),
            };
            assert(step_from(
                fresh_result(self.cached_results(), self.cache_ttl_millis(), run.command(), age),
                run.command(),
                true,
                r,
            ));
            r
        }
    }

    /// Takes the result of the command that the last step ran: a success is
    /// cached; a success, or the final run, finishes the run with it; else
    /// the next strategy is tried.
    pub fn fallback_result(&mut self, run: &mut FallbackRun, result: (i32, String)) -> (r: Option<
        (i32, String),
    >)
        requires
            old(run).position() <= old(run).strategy_list().len(),
        ensures
            ({
                let ran = if old(run).position() < old(run).strategy_list().len() {
                    old(run).strategy_list()[old(run).position() as int]
                } else {
                    old(run).command()
                };
                &&& result.0 == 0 ==> final(self).cached_results() == old(self).cached_results().insert(
                    ran,
                    (result.0, result.1@),
                )
                &&& result.0 != 0 ==> final(self).cached_results() == old(self).cached_results()
            }),
            final(self).cache_ttl_millis() == old(self).cache_ttl_millis(),
            final(self).patterns() == old(self).patterns(),
            final(run).command() == old(run).command(),
            final(run).strategy_list() == old(run).strategy_list(),
            final(run).position() <= final(run).strategy_list().len(),
            (result.0 == 0 || old(run).position() == old(run).strategy_list().len()) ==> (r matches Some(
                v,
            ) && v.0 == result.0 && v.1@ == result.1@ && final(run).position() == old(run).position()),
            !(result.0 == 0 || old(run).position() == old(run).strategy_list().len()) ==> (r is None
                && final(run).position() == old(run).position() + 1),
    {
        let finished = result.0 == 0 || run.next >= run.strategies.len();
        if run.next < run.strategies.len() {
            assert(run.strategy_list()[run.position() as int] == run.strategies@[run.next as int]@);
            self.record(run.strategies[run.next].as_str(), &result);
        } else {
            self.record(run.command.as_str(), &result);
        }
        if finished {
            Some(result)
        } else {
            run.next = run.next + 1;
            None
        }
    }
}

} // verus!
