//! The settings of a tool that searches its input for a pattern.

use crate::pattern::{pattern_builds, pattern_built};
use vstd::prelude::*;

verus! {

/// What to search for, where, and how to report it.
#[derive(Debug)]
pub struct Config {
    pub pattern: String,
    pub insensitive: bool,
    pub files: Vec<String>,
    pub recursive: bool,
    pub count: bool,
    pub invert_match: bool,
}

/// The sentence that refuses a pattern.
pub open spec fn refusal(pattern: Seq<char>) -> Seq<char> {
    "Invalid pattern \""@ + pattern + "\""@
}

/// Builds the settings. The pattern is refused exactly when the engine
/// does not build it with the letter case handled as asked.
pub fn configure(
    pattern: &str,
    insensitive: bool,
    files: Vec<String>,
    recursive: bool,
    count: bool,
    invert_match: bool,
) -> (res: Result<Config, String>)
    ensures
        match res {
            Ok(config) => pattern_builds(pattern@, insensitive) && config.pattern@ == pattern@
                && config.insensitive == insensitive && config.files == files
                && config.recursive == recursive && config.count == count
                && config.invert_match == invert_match,
            Err(message) => !pattern_builds(pattern@, insensitive) && message@ == refusal(
                pattern@,
            ),
        },
{
    if pattern_built(pattern, insensitive) {
        Ok(
            Config {
                pattern: pattern.to_owned(),
                insensitive,
                files,
                recursive,
                count,
                invert_match,
            },
        )
    } else {
        let mut message = "Invalid pattern \"".to_owned();
        message.append(pattern);
        message.append("\"");
        Err(message)
    }
}

} // verus!
