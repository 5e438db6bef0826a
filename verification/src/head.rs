//! The options of a tool that prints the first lines or bytes of its input.

use crate::decimal::{parse_usize, usize_value};
use crate::text::{option_view, push_char};
use vstd::prelude::*;

verus! {

/// The count that `val` denotes: a decimal number that fits a `usize` and
/// is above zero. Every other text denotes none.
pub open spec fn positive_value(val: Seq<char>) -> Option<usize> {
    match usize_value(val) {
        Some(n) => if n > 0 {
            Some(n)
        } else {
            None
        },
        None => None,
    }
}

/// Reads a count above zero. What is refused comes back as the error, as
/// written.
pub fn parse_int(val: &str) -> (res: Result<usize, String>)
    ensures
        match positive_value(val@) {
            Some(n) => res == Ok::<usize, String>(n),
            None => res matches Err(e) && e@ == val@,
        },
{
    match parse_usize(val) {
        Some(n) => {
            if n > 0 {
                Ok(n)
            } else {
                Err(val.to_owned())
            }
        },
        None => Err(val.to_owned()),
    }
}

/// What to read, and how much of it to print: so many lines, or so many
/// bytes where a number of bytes was given.
#[derive(Debug)]
pub struct Config {
    pub files: Vec<String>,
    pub lines: usize,
    pub bytes: Option<usize>,
}

/// The sentence that refuses a number of lines.
pub open spec fn line_refusal(val: Seq<char>) -> Seq<char> {
    "illegal line count -- "@ + val
}

/// The sentence that refuses a number of bytes.
pub open spec fn byte_refusal(val: Seq<char>) -> Seq<char> {
    "illegal byte count -- "@ + val
}

/// The numbers of lines and of bytes that the given texts settle on. The
/// lines are examined first; the first refusal is the one reported.
pub open spec fn settled(lines: Seq<char>, bytes: Option<Seq<char>>) -> Result<
    (usize, Option<usize>),
    Seq<char>,
> {
    match positive_value(lines) {
        None => Err(line_refusal(lines)),
        Some(n) => match bytes {
            None => Ok((n, None)),
            Some(val) => match positive_value(val) {
                None => Err(byte_refusal(val)),
                Some(m) => Ok((n, Some(m))),
            },
        },
    }
}

/// Builds the settings from the numbers as written on the command line.
pub fn configure(files: Vec<String>, lines: &str, bytes: Option<&str>) -> (res: Result<
    Config,
    String,
>)
    ensures
        match settled(lines@, option_view(bytes)) {
            Ok((n, m)) => res matches Ok(config) && config.files == files && config.lines == n
                && config.bytes == m,
            Err(message) => res matches Err(e) && e@ == message,
        },
{
    let line_count = match parse_int(lines) {
        Ok(n) => n,
        Err(val) => {
            let mut message = "illegal line count -- ".to_owned();
            message.append(val.as_str());
            return Err(message);
        },
    };
    let byte_count = match bytes {
        None => None,
        Some(given) => match parse_int(given) {
            Ok(m) => Some(m),
            Err(val) => {
                let mut message = "illegal byte count -- ".to_owned();
                message.append(val.as_str());
                return Err(message);
            },
        },
    };
    Ok(Config { files, lines: line_count, bytes: byte_count })
}

/// The line that announces the input `filename`: its name between arrows,
/// after an empty line unless it is the first input.
pub open spec fn header_text(file_num: usize, filename: Seq<char>) -> Seq<char> {
    (if file_num > 0 {
        seq!['\n']
    } else {
        Seq::<char>::empty()
    }) + "==> "@ + filename + " <=="@
}

/// The line that announces an input, where there is more than one input;
/// nothing where there is only one.
pub fn header(num_files: usize, file_num: usize, filename: &str) -> (out: Option<String>)
    ensures
        out is Some <==> num_files > 1,
        out matches Some(line) ==> line@ == header_text(file_num, filename@),
{
    if num_files > 1 {
        let mut line = String::new();
        if file_num > 0 {
            push_char(&mut line, '\n');
        }
        line.append("==> ");
        line.append(filename);
        line.append(" <==");
        assert(line@ =~= header_text(file_num, filename@));
        Some(line)
    } else {
        None
    }
}

} // verus!
