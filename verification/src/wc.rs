//! Counting the lines, words, bytes and characters of a text.

use crate::decimal::{decimal_digits, format_usize};
use crate::text::{
    char_is_whitespace, chars_of, is_whitespace, pad_left, push_char, right_aligned, utf8_text,
};
use vstd::prelude::*;
use vstd::utf8::{decode_utf8, encode_utf8, valid_utf8};

verus! {

/// The four counts of one input.
#[derive(Debug, PartialEq, Eq, Structural, Clone, Copy)]
pub struct FileInfo {
    pub num_lines: usize,
    pub num_words: usize,
    pub num_bytes: usize,
    pub num_chars: usize,
}

/// The input was not valid UTF-8, so it has no words or characters to
/// count.
#[derive(Debug, PartialEq, Eq, Structural, Clone, Copy)]
pub struct InvalidUtf8;

/// How many line feeds `text` holds.
pub open spec fn line_feeds(text: Seq<char>) -> nat
    decreases text.len(),
{
    if text.len() == 0 {
        0
    } else {
        line_feeds(text.drop_last()) + if text.last() == '\n' {
            1nat
        } else {
            0nat
        }
    }
}

/// How many lines `text` holds: one for each line feed, and one more for
/// what follows the last line feed, if anything does.
pub open spec fn line_count(text: Seq<char>) -> nat {
    line_feeds(text) + if text.len() > 0 && text.last() != '\n' {
        1nat
    } else {
        0nat
    }
}

/// True if a word starts at index `i` of `text`: the character there is not
/// white space, and it is the first of the text or follows white space.
pub open spec fn starts_word(text: Seq<char>, i: int) -> bool
    recommends
        0 <= i < text.len(),
{
    !is_whitespace(text[i]) && (i == 0 || is_whitespace(text[i - 1]))
}

/// How many words `text` holds: its runs of characters that are not white
/// space, each as long as it can be.
pub open spec fn word_count(text: Seq<char>) -> nat
    decreases text.len(),
{
    if text.len() == 0 {
        0
    } else {
        word_count(text.drop_last()) + if starts_word(text, text.len() - 1) {
            1nat
        } else {
            0nat
        }
    }
}

/// True if `info` holds the four counts of `text`.
pub open spec fn counts(info: FileInfo, text: Seq<char>) -> bool {
    &&& info.num_lines == line_count(text)
    &&& info.num_words == word_count(text)
    &&& info.num_bytes == encode_utf8(text).len()
    &&& info.num_chars == text.len()
}

/// Counts the lines, words, bytes and characters of `text`.
pub fn tally(text: &str) -> (info: FileInfo)
    ensures
        counts(info, text@),
{
    let chars = chars_of(text);
    let n = chars.len();
    let mut lines: usize = 0;
    let mut words: usize = 0;
    let mut in_word = false;
    let mut i: usize = 0;
    while i < n
        invariant
            i <= n,
            n == chars.len(),
            chars@ == text@,
            lines == line_feeds(text@.take(i as int)),
            words == word_count(text@.take(i as int)),
            lines <= i,
            words <= i,
            in_word == (i > 0 && !is_whitespace(text@[i - 1])),
        decreases n - i,
    {
        let c = chars[i];
        let space = char_is_whitespace(c);
        proof {
            let next = text@.take(i + 1);
            assert(next.drop_last() =~= text@.take(i as int));
            assert(next.last() == c);
            assert(i > 0 ==> next[i - 1] == text@[i - 1]);
        }
        if c == '\n' {
            lines += 1;
        }
        if !space && !in_word {
            words += 1;
        }
        in_word = !space;
        i += 1;
    }
    assert(text@.take(n as int) =~= text@);
    if n > 0 && chars[n - 1] != '\n' {
        assert(line_feeds(text@) == line_feeds(text@.drop_last()));
        assert(text@.drop_last() =~= text@.take(n - 1));
        proof {
            lemma_line_feeds_bound(text@.drop_last());
        }
        lines += 1;
    }
    FileInfo { num_lines: lines, num_words: words, num_bytes: text.as_bytes().len(), num_chars: n }
}

/// A text has no more line feeds than characters.
pub proof fn lemma_line_feeds_bound(text: Seq<char>)
    ensures
        line_feeds(text) <= text.len(),
    decreases text.len(),
{
    if text.len() > 0 {
        lemma_line_feeds_bound(text.drop_last());
    }
}

/// Counts the lines, words, bytes and characters of `input`, read as
/// UTF-8.
///
/// Fails exactly when `input` is not valid UTF-8.
pub fn count(input: &[u8]) -> (res: Result<FileInfo, InvalidUtf8>)
    ensures
        res is Ok <==> valid_utf8(input@),
        res matches Ok(info) ==> counts(info, decode_utf8(input@)) && info.num_bytes
            == input@.len(),
{
    match utf8_text(input) {
        Some(text) => {
            proof {
                vstd::utf8::encode_utf8_decode_utf8(text@);
            }
            Ok(tally(text))
        },
        None => Err(InvalidUtf8),
    }
}

/// One column of a report: `value` in decimal, right-aligned in eight
/// characters, or nothing where the column is not shown.
pub open spec fn field_text(value: usize, show: bool) -> Seq<char> {
    if show {
        right_aligned(decimal_digits(value as nat), 8)
    } else {
        Seq::<char>::empty()
    }
}

/// Formats one column of a report.
pub fn format_field(value: usize, show: bool) -> (out: String)
    ensures
        out@ == field_text(value, show),
{
    if show {
        let digits = format_usize(value);
        pad_left(digits.as_str(), 8)
    } else {
        String::new()
    }
}

/// What to read and which columns to show.
#[derive(Debug)]
pub struct Config {
    pub files: Vec<String>,
    pub lines: bool,
    pub words: bool,
    pub bytes: bool,
    pub char: bool,
}

/// Builds the settings from the four flags as given. Where none of them was
/// given, lines, words and bytes are shown and characters are not.
pub fn configure(files: Vec<String>, lines: bool, words: bool, bytes: bool, chars: bool) -> (config:
    Config)
    ensures
        config.files == files,
        lines || words || bytes || chars ==> config.lines == lines && config.words == words
            && config.bytes == bytes && config.char == chars,
        !(lines || words || bytes || chars) ==> config.lines && config.words && config.bytes
            && !config.char,
{
    if !lines && !words && !bytes && !chars {
        Config { files, lines: true, words: true, bytes: true, char: false }
    } else {
        Config { files, lines, words, bytes, char: chars }
    }
}

/// The columns of one report line: lines, words, bytes and characters, each
/// one shown or left out as `config` says.
pub open spec fn columns_text(info: FileInfo, config: Config) -> Seq<char> {
    field_text(info.num_lines, config.lines) + field_text(info.num_words, config.words)
        + field_text(info.num_bytes, config.bytes) + field_text(info.num_chars, config.char)
}

/// The report line of one input: its columns, then a space and its name,
/// unless the name is `-`, which stands for the standard input.
pub open spec fn report_text(info: FileInfo, config: Config, filename: Seq<char>) -> Seq<char> {
    columns_text(info, config) + if filename == seq!['-'] {
        Seq::<char>::empty()
    } else {
        seq![' '] + filename
    }
}

/// The report line of all inputs together.
pub open spec fn total_text(total: FileInfo, config: Config) -> Seq<char> {
    columns_text(total, config) + " total"@
}

/// Formats the columns of one report line.
fn format_columns(info: &FileInfo, config: &Config) -> (out: String)
    ensures
        out@ == columns_text(*info, *config),
{
    let mut out = format_field(info.num_lines, config.lines);
    let words = format_field(info.num_words, config.words);
    let bytes = format_field(info.num_bytes, config.bytes);
    let chars = format_field(info.num_chars, config.char);
    out.append(words.as_str());
    out.append(bytes.as_str());
    out.append(chars.as_str());
    out
}

/// Formats the report line of one input.
pub fn report(info: &FileInfo, config: &Config, filename: &str) -> (out: String)
    ensures
        out@ == report_text(*info, *config, filename@),
{
    let mut out = format_columns(info, config);
    let name = chars_of(filename);
    if name.len() == 1 && name[0] == '-' {
        assert(filename@ =~= seq!['-']);
    } else {
        push_char(&mut out, ' ');
        out.append(filename);
        assert(out@ =~= columns_text(*info, *config) + (seq![' '] + filename@));
    }
    out
}

/// Formats the report line of all inputs together.
pub fn report_total(total: &FileInfo, config: &Config) -> (out: String)
    ensures
        out@ == total_text(*total, *config),
{
    let mut out = format_columns(total, config);
    out.append(" total");
    out
}

impl FileInfo {
    /// The counts of nothing.
    pub fn zero() -> (info: FileInfo)
        ensures
            info == (FileInfo { num_lines: 0, num_words: 0, num_bytes: 0, num_chars: 0 }),
    {
        FileInfo { num_lines: 0, num_words: 0, num_bytes: 0, num_chars: 0 }
    }

    /// True if each count of `self` and the same count of `other` together
    /// fit a `usize`.
    pub open spec fn fits_with(self, other: FileInfo) -> bool {
        &&& self.num_lines + other.num_lines <= usize::MAX
        &&& self.num_words + other.num_words <= usize::MAX
        &&& self.num_bytes + other.num_bytes <= usize::MAX
        &&& self.num_chars + other.num_chars <= usize::MAX
    }

    /// The counts of two inputs together, count by count; nothing where a
    /// sum does not fit a `usize`.
    pub fn plus(&self, other: &FileInfo) -> (sum: Option<FileInfo>)
        ensures
            sum is Some <==> self.fits_with(*other),
            sum matches Some(total) ==> total.num_lines == self.num_lines + other.num_lines
                && total.num_words == self.num_words + other.num_words && total.num_bytes
                == self.num_bytes + other.num_bytes && total.num_chars == self.num_chars
                + other.num_chars,
    {
        let num_lines = self.num_lines.checked_add(other.num_lines)?;
        let num_words = self.num_words.checked_add(other.num_words)?;
        let num_bytes = self.num_bytes.checked_add(other.num_bytes)?;
        let num_chars = self.num_chars.checked_add(other.num_chars)?;
        Some(FileInfo { num_lines, num_words, num_bytes, num_chars })
    }
}

} // verus!
