//! Log entries of the assistant's work and the previews shown to the user.
use vstd::prelude::*;
use crate::text::{
    chars_of, decimal, decimal_chars, i32_decimal_chars, join, join_chars, lemma_string_views_push,
    lines, lines_of, push_chars, push_str, signed_decimal, string_of, string_views, trim,
    trim_chars, views,
};

verus! {

/// How much is logged, from least to most.
#[derive(Debug, Clone, Copy, PartialEq, Eq, PartialOrd, Ord)]
pub enum LogLevel {
    Error,
    Warn,
    Info,
    Debug,
    Trace,
}

/// The place of a level in the order Error < Warn < Info < Debug < Trace.
pub open spec fn level_rank(l: LogLevel) -> nat {
    match l {
        LogLevel::Error => 0,
        LogLevel::Warn => 1,
        LogLevel::Info => 2,
        LogLevel::Debug => 3,
        LogLevel::Trace => 4,
    }
}

/// The place of a level in the order of levels.
pub fn rank_of(l: LogLevel) -> (r: u8)
    ensures
        r == level_rank(l),
{
    match l {
        LogLevel::Error => 0,
        LogLevel::Warn => 1,
        LogLevel::Info => 2,
        LogLevel::Debug => 3,
        LogLevel::Trace => 4,
    }
}

/// A logger of detailed records to a file.
pub struct DebugLogger {
    enabled: bool,
    log_file: Option<String>,
    log_level: LogLevel,
}

impl DebugLogger {
    /// Whether logging is on.
    pub closed spec fn is_enabled(&self) -> bool {
        self.enabled
    }

    /// The file written to, if any.
    pub closed spec fn file(&self) -> Option<Seq<char>> {
        match self.log_file {
            Some(f) => Some(f@),
            None => None,
        }
    }

    /// The level up to which records are kept.
    pub closed spec fn level(&self) -> LogLevel {
        self.log_level
    }

    /// Whether records of the given level are kept.
    pub open spec fn keeps(&self, l: LogLevel) -> bool {
        self.is_enabled() && level_rank(self.level()) >= level_rank(l)
    }

    /// A logger with the given settings.
    pub fn new(enabled: bool, log_file: Option<String>, log_level: LogLevel) -> (d: Self)
        ensures
            d.is_enabled() == enabled,
            d.file() == match log_file {
                Some(f) => Some(f@),
                None => None::<Seq<char>>,
            },
            d.level() == log_level,
    {
        DebugLogger { enabled, log_file, log_level }
    }

    /// The file written to, if any.
    pub fn log_file(&self) -> (r: Option<String>)
        ensures
            r matches Some(f) ==> self.file() == Some(f@),
            r is None ==> self.file() is None,
    {
        match &self.log_file {
            Some(f) => Some(string_of(&chars_of(f.as_str()))),
            None => None,
        }
    }

    fn keeps_level(&self, l: LogLevel) -> (r: bool)
        ensures
            r == self.keeps(l),
    {
        self.enabled && rank_of(self.log_level) >= rank_of(l)
    }

    /// The record of a model exchange, when debug records are kept.
    pub fn llm_interaction_entry(&self, timestamp: &str, prompt: &str, response: &str) -> (r: Option<String>)
        ensures
            !self.keeps(LogLevel::Debug) ==> r is None,
            self.keeps(LogLevel::Debug) ==> (r matches Some(e) && e@ == "=== "@ + timestamp@
                + " ===\nPROMPT:\n"@ + prompt@ + "\n\nRESPONSE:\n"@ + response@ + "\n\n"@),
    {
        if !self.keeps_level(LogLevel::Debug) {
            return None;
        }
        let mut e = chars_of("=== ");
        push_str(&mut e, timestamp);
        push_str(&mut e, " ===\nPROMPT:\n");
        push_str(&mut e, prompt);
        push_str(&mut e, "\n\nRESPONSE:\n");
        push_str(&mut e, response);
        push_str(&mut e, "\n\n");
        Some(string_of(&e))
    }

    /// The record of a command run, when debug records are kept.
    pub fn command_execution_entry(&self, timestamp: &str, command: &str, result: &(i32, String)) -> (r: Option<String>)
        ensures
            !self.keeps(LogLevel::Debug) ==> r is None,
            self.keeps(LogLevel::Debug) ==> (r matches Some(e) && e@ == "=== "@ + timestamp@
                + " ===\nCOMMAND: "@ + command@ + "\nEXIT CODE: "@ + signed_decimal(result.0 as int)
                + "\nOUTPUT:\n"@ + result.1@ + "\n\n"@),
    {
        if !self.keeps_level(LogLevel::Debug) {
            return None;
        }
        let mut e = chars_of("=== ");
        push_str(&mut e, timestamp);
        push_str(&mut e, " ===\nCOMMAND: ");
        push_str(&mut e, command);
        push_str(&mut e, "\nEXIT CODE: ");
        let code = i32_decimal_chars(result.0);
        push_chars(&mut e, &code);
        push_str(&mut e, "\nOUTPUT:\n");
        push_str(&mut e, result.1.as_str());
        push_str(&mut e, "\n\n");
        Some(string_of(&e))
    }

    /// The record of an error, given its debug text, when error records are
    /// kept.
    pub fn error_entry(&self, timestamp: &str, error_text: &str) -> (r: Option<String>)
        ensures
            !self.keeps(LogLevel::Error) ==> r is None,
            self.keeps(LogLevel::Error) ==> (r matches Some(e) && e@ == "=== "@ + timestamp@
                + " === ERROR:\n"@ + error_text@ + "\n\n"@),
    {
        if !self.keeps_level(LogLevel::Error) {
            return None;
        }
        let mut e = chars_of("=== ");
        push_str(&mut e, timestamp);
        push_str(&mut e, " === ERROR:\n");
        push_str(&mut e, error_text);
        push_str(&mut e, "\n\n");
        Some(string_of(&e))
    }

    /// The record of a step, with the text of its data if any, when info
    /// records are kept.
    pub fn step_entry(&self, timestamp: &str, step: &str, data: Option<&str>) -> (r: Option<String>)
        ensures
            !self.keeps(LogLevel::Info) ==> r is None,
            self.keeps(LogLevel::Info) ==> (r matches Some(e) && e@ == "=== "@ + timestamp@
                + " === STEP: "@ + step@ + "\n"@ + (match data {
                Some(d) => "DATA: "@ + d@ + "\n"@,
                None => Seq::empty(),
            }) + "\n"@),
    {
        if !self.keeps_level(LogLevel::Info) {
            return None;
        }
        let mut e = chars_of("=== ");
        push_str(&mut e, timestamp);
        push_str(&mut e, " === STEP: ");
        push_str(&mut e, step);
        push_str(&mut e, "\n");
        let ghost before = e@;
        match data {
            Some(d) => {
                push_str(&mut e, "DATA: ");
                push_str(&mut e, d);
                push_str(&mut e, "\n");
                assert(e@ =~= before + ("DATA: "@ + d@ + "\n"@));
            },
            None => {
                assert(e@ =~= before + Seq::<char>::empty());
            },
        }
        push_str(&mut e, "\n");
        Some(string_of(&e))
    }
}

/// The logger of user-facing messages.
pub struct Logger {
    debug_logger: DebugLogger,
}

/// The lines shown for command output: nothing for blank output, else a
/// caption, the first five lines, and a count of the lines left out.
pub open spec fn output_preview(output: Seq<char>) -> Seq<Seq<char>> {
    let ls = lines(output);
    if trim(output).len() == 0 {
        Seq::empty()
    } else if ls.len() > 5 {
        seq![
            "Output preview:"@,
            join(ls.take(5), seq!['\n']),
            "... ("@ + decimal((ls.len() - 5) as nat) + " more lines, full output saved in conversation)"@,
        ]
    } else {
        seq!["Output preview:"@, join(ls, seq!['\n'])]
    }
}

impl Logger {
    /// The logger, whose debug records go nowhere: on, at info level, with
    /// no file.
    pub fn new() -> (l: Self)
        ensures
            l.debug().is_enabled(),
            l.debug().file() is None,
            l.debug().level() == LogLevel::Info,
    {
        Logger { debug_logger: DebugLogger::new(true, None, LogLevel::Info) }
    }

    /// The logger of detailed records.
    pub closed spec fn debug(&self) -> DebugLogger {
        self.debug_logger
    }

    /// The lines to show for command output.
    pub fn command_output_lines(&self, output: &str) -> (r: Vec<String>)
        ensures
            string_views(r@) == output_preview(output@),
    {
        let text = chars_of(output);
        let t = trim_chars(&text);
        let mut r: Vec<String> = Vec::new();
        if t.len() == 0 {
            assert(string_views(r@) =~= output_preview(output@));
            return r;
        }
        let ls = lines_of(&text);
        let keep: usize = if ls.len() > 5 {
            5
        } else {
            ls.len()
        };
        let mut kept: Vec<Vec<char>> = Vec::new();
        let mut i: usize = 0;
        while i < keep
            invariant
                i <= keep <= ls.len(),
                views(kept@) == views(ls@).take(i as int),
            decreases keep - i,
        {
            let line = crate::text::copy_chars(&ls[i]);
            proof {
                crate::text::lemma_views_push(kept@, line);
            }
            kept.push(line);
            assert(views(ls@).take(i + 1) =~= views(ls@).take(i as int).push(ls@[i as int]@));
            i = i + 1;
        }
        if ls.len() <= 5 {
            assert(views(ls@).take(keep as int) =~= views(ls@));
        }
        let nl: Vec<char> = vec!['\n'];
        assert(nl@ =~= seq!['\n']);
        let caption = string_of(&chars_of("Output preview:"));
        proof {
            lemma_string_views_push(r@, caption);
        }
        r.push(caption);
        let body = string_of(&join_chars(&kept, &nl));
        proof {
            lemma_string_views_push(r@, body);
        }
        r.push(body);
        if ls.len() > 5 {
            let mut more = chars_of("... (");
            let n = decimal_chars(ls.len() - 5);
            push_chars(&mut more, &n);
            push_str(&mut more, " more lines, full output saved in conversation)");
            let m = string_of(&more);
            proof {
                lemma_string_views_push(r@, m);
            }
            r.push(m);
        }
        assert(string_views(r@) =~= output_preview(output@));
        r
    }
}

} // verus!
