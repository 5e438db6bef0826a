//! The lines of a tool that prints its input, numbered where asked.

use crate::decimal::{decimal_digits, format_usize};
use crate::text::{pad_left, push_char, right_aligned};
use vstd::prelude::*;

verus! {

/// What to read and how to print it.
#[derive(Debug)]
pub struct Config {
    pub files: Vec<String>,
    pub number_lines: bool,
    pub number_nonblank_files: bool,
    pub show_end_line: bool,
}

/// What marks the end of a line: a dollar sign where ends are shown.
pub open spec fn ending_text(show_end_line: bool) -> Seq<char> {
    if show_end_line {
        seq!['$']
    } else {
        Seq::<char>::empty()
    }
}

/// A line with its number in front: the number right-aligned in six
/// characters, a tab, the line and its ending.
pub open spec fn numbered_text(number: nat, line: Seq<char>, ending: Seq<char>) -> Seq<char> {
    right_aligned(decimal_digits(number), 6) + seq!['\t'] + line + ending
}

/// True if the line gets a number of the lines that are not empty.
pub open spec fn counts_as_nonblank(config: Config, line: Seq<char>) -> bool {
    !config.number_lines && config.number_nonblank_files && line.len() > 0
}

/// What is printed for the line at `index`, counted from zero, when
/// `numbered` lines that are not empty came before it. Numbering all lines
/// goes before numbering those that are not empty.
pub open spec fn line_text(config: Config, index: usize, numbered: usize, line: Seq<char>) -> Seq<
    char,
> {
    let ending = ending_text(config.show_end_line);
    if config.number_lines {
        numbered_text((index + 1) as nat, line, ending)
    } else if config.number_nonblank_files {
        if line.len() > 0 {
            numbered_text((numbered + 1) as nat, line, ending)
        } else {
            ending
        }
    } else {
        line + ending
    }
}

/// Formats a line with its number in front.
fn number_line(number: usize, line: &str, ending: &str) -> (out: String)
    ensures
        out@ == numbered_text(number as nat, line@, ending@),
{
    let digits = format_usize(number);
    let mut out = pad_left(digits.as_str(), 6);
    push_char(&mut out, '\t');
    out.append(line);
    out.append(ending);
    out
}

/// Formats one line of the input.
///
/// Takes the index of the line, counted from zero, and how many lines that
/// are not empty were numbered before it. Returns what to print, without the
/// line feed, and how many such lines are numbered after it.
pub fn render_line(config: &Config, index: usize, numbered: usize, line: &str) -> (out: (
    String,
    usize,
))
    requires
        numbered <= index < usize::MAX,
    ensures
        out.0@ == line_text(*config, index, numbered, line@),
        out.1 == if counts_as_nonblank(*config, line@) {
            numbered + 1
        } else {
            numbered as int
        },
{
    let ending = if config.show_end_line {
        "$"
    } else {
        ""
    };
    proof {
        reveal_strlit("$");
        reveal_strlit("");
        assert(ending@ =~= ending_text(config.show_end_line));
    }
    if config.number_lines {
        (number_line(index + 1, line, ending), numbered)
    } else if config.number_nonblank_files {
        if !line.is_empty() {
            (number_line(numbered + 1, line, ending), numbered + 1)
        } else {
            (ending.to_owned(), numbered)
        }
    } else {
        let mut out = line.to_owned();
        out.append(ending);
        (out, numbered)
    }
}

} // verus!
