//! The output of a tool that prints its arguments.

use crate::text::{join_with, joined_with, push_char, text_views};
use vstd::prelude::*;

verus! {

/// What follows the words: a line feed, or a space where the line feed is
/// left out.
pub open spec fn ending(omit_newline: bool) -> char {
    if omit_newline {
        ' '
    } else {
        '\n'
    }
}

/// The words with one space between each two of them, followed by the
/// ending.
pub fn render(words: &[String], omit_newline: bool) -> (out: String)
    ensures
        out@ == joined_with(text_views(words@), ' ').push(ending(omit_newline)),
{
    let mut out = join_with(words, ' ');
    if omit_newline {
        push_char(&mut out, ' ');
    } else {
        push_char(&mut out, '\n');
    }
    out
}

} // verus!
