//! User-configurable settings such as the patterns of destructive commands.
use vstd::prelude::*;
use crate::config::{default_ask_patterns, patterns_or};
use crate::text::string_views;

verus! {

/// The "ask me before" patterns given the text of the pattern file, if
/// there is one: its patterns, or the defaults when it holds none.
pub fn load_ask_me_before_patterns(file_content: Option<&str>) -> (r: Vec<String>)
    ensures
        string_views(r@) == patterns_or(
            match file_content {
                Some(c) => Some(c@),
                None => None,
            },
            default_ask_patterns(),
        ),
{
    crate::config::load_ask_me_before_patterns(file_content)
}

} // verus!
