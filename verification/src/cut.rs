//! The settings of a tool that cuts positions out of its input: which
//! delimiter separates fields, and what is selected.

use crate::extract::{Extract, Selection};
use crate::pattern::{pattern_accepted, pattern_compiles};
use crate::positions::{
    failure_message, parse_pos, parsed_positions, ParseError, ParseFailure, RANGE_PATTERN,
};
use crate::text::option_view;
use vstd::prelude::*;
use vstd::utf8::encode_utf8;

verus! {

/// Why the settings were refused.
#[derive(Debug)]
pub enum ConfigError {
    /// The delimiter is not one byte long; it holds the delimiter as given.
    Delimiter(String),
    /// A position list was refused.
    Positions(ParseError),
    /// Neither fields nor bytes nor characters were selected.
    NoSelection,
}

/// A `ConfigError` as a mathematical value.
pub enum ConfigFailure {
    Delimiter(Seq<char>),
    Positions(ParseFailure),
    NoSelection,
}

impl View for ConfigError {
    type V = ConfigFailure;

    open spec fn view(&self) -> ConfigFailure {
        match self {
            ConfigError::Delimiter(given) => ConfigFailure::Delimiter(given@),
            ConfigError::Positions(e) => ConfigFailure::Positions(e@),
            ConfigError::NoSelection => ConfigFailure::NoSelection,
        }
    }
}

/// The sentence that reports a refusal.
pub open spec fn refusal_message(failure: ConfigFailure) -> Seq<char> {
    match failure {
        ConfigFailure::Delimiter(given) => "--delim \""@ + given + "\" must be a single byte"@,
        ConfigFailure::Positions(e) => failure_message(e),
        ConfigFailure::NoSelection => "Must have --fields, --bytes, or --chars"@,
    }
}

impl ConfigError {
    /// The sentence that reports this error.
    pub fn to_string(&self) -> (message: String)
        ensures
            message@ == refusal_message(self@),
    {
        match self {
            ConfigError::Delimiter(given) => {
                let mut message = String::new();
                message.append("--delim \"");
                message.append(given.as_str());
                message.append("\" must be a single byte");
                message
            },
            ConfigError::Positions(e) => e.to_string(),
            ConfigError::NoSelection => "Must have --fields, --bytes, or --chars".to_owned(),
        }
    }
}

/// What to read, how fields are delimited, and what to select.
#[derive(Debug)]
pub struct Config {
    pub files: Vec<String>,
    pub delimiter: u8,
    pub extract: Extract,
}

/// The byte that a delimiter text stands for: its only byte. A text of any
/// other length is refused.
pub open spec fn delimiter_of(given: Seq<char>) -> Result<u8, ConfigFailure> {
    if encode_utf8(given).len() == 1 {
        Ok(encode_utf8(given)[0])
    } else {
        Err(ConfigFailure::Delimiter(given))
    }
}

/// The selection made by up to three position lists: the fields if there
/// are any, else the bytes, else the characters.
pub open spec fn selection_of(
    fields: Option<Seq<usize>>,
    bytes: Option<Seq<usize>>,
    chars: Option<Seq<usize>>,
) -> Result<Selection, ConfigFailure> {
    match (fields, bytes, chars) {
        (Some(positions), _, _) => Ok(Selection::Fields(positions)),
        (None, Some(positions), _) => Ok(Selection::Bytes(positions)),
        (None, None, Some(positions)) => Ok(Selection::Chars(positions)),
        (None, None, None) => Err(ConfigFailure::NoSelection),
    }
}

/// What an optional position list parses to: nothing where nothing was
/// given.
pub open spec fn parsed_option(given: Option<Seq<char>>) -> Result<
    Option<Seq<usize>>,
    ConfigFailure,
> {
    match given {
        None => Ok(None),
        Some(text) => match parsed_positions(text) {
            Ok(positions) => Ok(Some(positions)),
            Err(e) => Err(ConfigFailure::Positions(e)),
        },
    }
}

/// The delimiter and the selection that the given texts settle on. The
/// delimiter is examined first, then the lists of fields, of bytes and of
/// characters in that order, each of them even where an earlier one was
/// given; the first refusal is the one reported.
pub open spec fn settled(
    delimiter: Seq<char>,
    fields: Option<Seq<char>>,
    bytes: Option<Seq<char>>,
    chars: Option<Seq<char>>,
) -> Result<(u8, Selection), ConfigFailure> {
    match delimiter_of(delimiter) {
        Err(e) => Err(e),
        Ok(byte) => match parsed_option(fields) {
            Err(e) => Err(e),
            Ok(f) => match parsed_option(bytes) {
                Err(e) => Err(e),
                Ok(b) => match parsed_option(chars) {
                    Err(e) => Err(e),
                    Ok(c) => match selection_of(f, b, c) {
                        Err(e) => Err(e),
                        Ok(selection) => Ok((byte, selection)),
                    },
                },
            },
        },
    }
}

/// The positions of an optional list.
pub open spec fn list_view(given: Option<Vec<usize>>) -> Option<Seq<usize>> {
    match given {
        Some(positions) => Some(positions@),
        None => None,
    }
}

/// Reads the delimiter: the byte of a text that is one byte long.
pub fn delimiter_byte(given: &str) -> (res: Result<u8, ConfigError>)
    ensures
        match delimiter_of(given@) {
            Ok(byte) => res matches Ok(b) && b == byte,
            Err(failure) => res matches Err(e) && e@ == failure,
        },
{
    let bytes = given.as_bytes();
    if bytes.len() != 1 {
        return Err(ConfigError::Delimiter(given.to_owned()));
    }
    Ok(bytes[0])
}

/// Settles what is selected: fields before bytes before characters.
pub fn choose_extract(
    fields: Option<Vec<usize>>,
    bytes: Option<Vec<usize>>,
    chars: Option<Vec<usize>>,
) -> (res: Result<Extract, ConfigError>)
    ensures
        match selection_of(list_view(fields), list_view(bytes), list_view(chars)) {
            Ok(selection) => res matches Ok(extract) && extract@ == selection,
            Err(failure) => res matches Err(e) && e@ == failure,
        },
{
    if let Some(positions) = fields {
        Ok(Extract::Fields(positions))
    } else if let Some(positions) = bytes {
        Ok(Extract::Bytes(positions))
    } else if let Some(positions) = chars {
        Ok(Extract::Chars(positions))
    } else {
        Err(ConfigError::NoSelection)
    }
}

/// Parses a position list where one was given.
fn parse_option(given: Option<&str>) -> (res: Result<Option<Vec<usize>>, ConfigError>)
    requires
        pattern_compiles(RANGE_PATTERN@),
    ensures
        match parsed_option(option_view(given)) {
            Ok(positions) => res matches Ok(p) && list_view(p) == positions,
            Err(failure) => res matches Err(e) && e@ == failure,
        },
{
    match given {
        None => Ok(None),
        Some(text) => match parse_pos(text) {
            Ok(positions) => Ok(Some(positions)),
            Err(e) => Err(ConfigError::Positions(e)),
        },
    }
}

/// Builds the settings from what was given on the command line.
///
/// The result is `settled` of the texts, with `files` as given. The engine
/// must accept the range pattern, which `try_configure` finds out.
pub fn configure(
    files: Vec<String>,
    delimiter: &str,
    fields: Option<&str>,
    bytes: Option<&str>,
    chars: Option<&str>,
) -> (res: Result<Config, ConfigError>)
    requires
        pattern_compiles(RANGE_PATTERN@),
    ensures
        match settled(delimiter@, option_view(fields), option_view(bytes), option_view(chars)) {
            Ok((byte, selection)) => res matches Ok(config) && config.files == files
                && config.delimiter == byte && config.extract@ == selection,
            Err(failure) => res matches Err(e) && e@ == failure,
        },
{
    let byte = delimiter_byte(delimiter)?;
    let field_pos = parse_option(fields)?;
    let byte_pos = parse_option(bytes)?;
    let char_pos = parse_option(chars)?;
    let extract = choose_extract(field_pos, byte_pos, char_pos)?;
    Ok(Config { files, delimiter: byte, extract })
}

/// Builds the settings, unless the engine refuses the range pattern.
///
/// Returns nothing exactly when the engine refuses the pattern, and what
/// `configure` returns otherwise.
pub fn try_configure(
    files: Vec<String>,
    delimiter: &str,
    fields: Option<&str>,
    bytes: Option<&str>,
    chars: Option<&str>,
) -> (res: Option<Result<Config, ConfigError>>)
    ensures
        res is Some <==> pattern_compiles(RANGE_PATTERN@),
        res matches Some(outcome) ==> match settled(
            delimiter@,
            option_view(fields),
            option_view(bytes),
            option_view(chars),
        ) {
            Ok((byte, selection)) => outcome matches Ok(config) && config.files == files
                && config.delimiter == byte && config.extract@ == selection,
            Err(failure) => outcome matches Err(e) && e@ == failure,
        },
{
    if pattern_accepted(RANGE_PATTERN) {
        Some(configure(files, delimiter, fields, bytes, chars))
    } else {
        None
    }
}

} // verus!
