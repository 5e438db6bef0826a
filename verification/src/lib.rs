//! The rules of a set of line-oriented text tools, stated and proved.
//!
//! The centre is cutting positions out of a line: `positions` reads a list
//! such as `1,7,3-5` into positions counted from zero, and `extract` picks
//! the bytes, characters or fields at those positions, in the order listed.
//! Around it stand the rules of the other tools: counting (`wc`), the first
//! lines (`head`), numbering lines (`cat`), merging equal lines (`uniq`),
//! listing directory entries (`find`), searching (`grep`) and printing
//! arguments (`echo`).
//!
//! Nothing here reads or writes a file. What comes from the `regex` and
//! `csv` crates is named in `pattern` and `extract`; what comes from the
//! standard library without a proof is in `text`.

pub mod cat;
pub mod cut;
pub mod decimal;
pub mod echo;
pub mod extract;
pub mod find;
pub mod grep;
pub mod head;
pub mod pattern;
pub mod positions;
pub mod text;
pub mod uniq;
pub mod wc;
