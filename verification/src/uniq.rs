//! A tool that merges each run of equal lines into one, and counts them.
//!
//! Two lines are equal when they are the same up to the white space at
//! their ends. The input is taken line by line; what is kept between two
//! lines is the first line of the current run and how many lines the run
//! has so far.

use crate::decimal::{decimal_digits, format_u64};
use crate::text::{
    char_is_whitespace, chars_of, is_whitespace, pad_left, push_char, right_aligned, string_view,
};
use vstd::prelude::*;

verus! {

/// What to read, where to write, and whether to count.
#[derive(Debug)]
pub struct Config {
    pub in_file: String,
    pub out_file: Option<String>,
    pub count: bool,
}

/// The text without the white space at its end.
pub open spec fn trimmed_end(s: Seq<char>) -> Seq<char>
    decreases s.len(),
{
    if s.len() > 0 && is_whitespace(s.last()) {
        trimmed_end(s.drop_last())
    } else {
        s
    }
}

/// True if two lines are the same up to the white space at their ends.
pub open spec fn same_line(a: Seq<char>, b: Seq<char>) -> bool {
    trimmed_end(a) == trimmed_end(b)
}

/// How many characters of `chars` are left when the white space at the end
/// is taken off.
fn trimmed_len(chars: &Vec<char>) -> (k: usize)
    ensures
        k <= chars.len(),
        trimmed_end(chars@) == chars@.take(k as int),
{
    let mut k: usize = chars.len();
    assert(chars@.take(k as int) =~= chars@);
    while k > 0
        invariant
            k <= chars.len(),
            trimmed_end(chars@) == trimmed_end(chars@.take(k as int)),
        ensures
            k <= chars.len(),
            trimmed_end(chars@) == chars@.take(k as int),
        decreases k,
    {
        assert(chars@.take(k as int).last() == chars@[k - 1]);
        if !char_is_whitespace(chars[k - 1]) {
            break;
        }
        assert(chars@.take(k as int).drop_last() =~= chars@.take(k - 1));
        k -= 1;
    }
    k
}

/// Tells whether two lines are the same up to the white space at their
/// ends.
pub fn lines_match(a: &str, b: &str) -> (same: bool)
    ensures
        same == same_line(a@, b@),
{
    let left = chars_of(a);
    let right = chars_of(b);
    let n = trimmed_len(&left);
    let m = trimmed_len(&right);
    if n != m {
        assert(left@.take(n as int).len() != right@.take(m as int).len());
        return false;
    }
    let mut i: usize = 0;
    while i < n
        invariant
            i <= n,
            n <= left.len(),
            n <= right.len(),
            trimmed_end(a@) == left@.take(n as int),
            trimmed_end(b@) == right@.take(n as int),
            left@.take(i as int) == right@.take(i as int),
        decreases n - i,
    {
        if left[i] != right[i] {
            assert(left@.take(n as int)[i as int] != right@.take(n as int)[i as int]);
            return false;
        }
        assert(left@.take(i + 1) =~= left@.take(i as int).push(left@[i as int]));
        assert(right@.take(i + 1) =~= right@.take(i as int).push(right@[i as int]));
        i += 1;
    }
    true
}

/// What is written for a run of `count` lines that began with `line`: the
/// line, with the count right-aligned in four characters and a space in
/// front where counts are shown. Nothing is written for no lines.
pub open spec fn entry_text(count: u64, line: Seq<char>, show_count: bool) -> Option<Seq<char>> {
    if count == 0 {
        None
    } else if show_count {
        Some(right_aligned(decimal_digits(count as nat), 4) + seq![' '] + line)
    } else {
        Some(line)
    }
}

/// Formats what is written for a run of `count` lines that began with
/// `line`.
pub fn entry(count: u64, line: &str, show_count: bool) -> (out: Option<String>)
    ensures
        string_view(out) == entry_text(count, line@, show_count),
{
    if count == 0 {
        None
    } else if show_count {
        let digits = format_u64(count);
        let mut text = pad_left(digits.as_str(), 4);
        push_char(&mut text, ' ');
        text.append(line);
        Some(text)
    } else {
        Some(line.to_owned())
    }
}

/// The run of equal lines that is being read.
#[derive(Debug)]
pub struct Run {
    /// The first line of the run, as read.
    pub last_line: String,
    /// How many lines the run has so far.
    pub count: u64,
}

/// A `Run` as a mathematical value.
pub struct RunView {
    pub last_line: Seq<char>,
    pub count: u64,
}

impl View for Run {
    type V = RunView;

    open spec fn view(&self) -> RunView {
        RunView { last_line: self.last_line@, count: self.count }
    }
}

/// The run after `line` was read: one line longer where the line belongs to
/// it, and a new run of that one line where it does not.
pub open spec fn next_run(run: RunView, line: Seq<char>) -> RunView {
    if same_line(line, run.last_line) {
        RunView { last_line: run.last_line, count: (run.count + 1) as u64 }
    } else {
        RunView { last_line: line, count: 1 }
    }
}

/// What is written when `line` was read: the run before it where the line
/// ends that run, and nothing where it continues the run.
pub open spec fn written(run: RunView, line: Seq<char>, show_count: bool) -> Option<Seq<char>> {
    if same_line(line, run.last_line) {
        None
    } else {
        entry_text(run.count, run.last_line, show_count)
    }
}

impl Run {
    /// The run before any line was read: no lines, and an empty line to
    /// compare the first one with.
    pub fn new() -> (run: Run)
        ensures
            run@ == (RunView { last_line: Seq::<char>::empty(), count: 0 }),
    {
        Run { last_line: String::new(), count: 0 }
    }

    /// Takes the next line of the input. Returns the run after it and what
    /// to write, if anything.
    pub fn step(self, line: &str, show_count: bool) -> (out: (Run, Option<String>))
        requires
            self.count < u64::MAX,
        ensures
            out.0@ == next_run(self@, line@),
            string_view(out.1) == written(self@, line@, show_count),
    {
        if lines_match(line, self.last_line.as_str()) {
            (Run { last_line: self.last_line, count: self.count + 1 }, None)
        } else {
            let text = entry(self.count, self.last_line.as_str(), show_count);
            (Run { last_line: line.to_owned(), count: 1 }, text)
        }
    }

    /// What to write when the input has ended: the run that was being read.
    pub fn finish(&self, show_count: bool) -> (out: Option<String>)
        ensures
            string_view(out) == entry_text(self.count, self.last_line@, show_count),
    {
        entry(self.count, self.last_line.as_str(), show_count)
    }
}

} // verus!
