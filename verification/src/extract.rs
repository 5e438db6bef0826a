//! Picking positions out of a line or a record.
//!
//! A selection is a list of positions, counted from zero. What it picks
//! comes out in the order of the list, once for every time a position is
//! listed. A position that the line or record does not have picks nothing.

use crate::text::{chars_of, decode_lossy, lossy_text, option_view, string_of};
use vstd::prelude::*;
use vstd::utf8::{
    decode_utf8, encode_utf8, encode_utf8_decode_utf8, encode_utf8_valid_utf8, is_ascii_chars,
    is_ascii_chars_encode_utf8, valid_utf8,
};

verus! {

/// What to cut out of the input, and at which positions.
#[derive(Debug)]
pub enum Extract {
    /// Fields of a delimited record.
    Fields(Vec<usize>),
    /// Bytes of a line.
    Bytes(Vec<usize>),
    /// Characters of a line.
    Chars(Vec<usize>),
}

/// An `Extract` as a mathematical value.
pub enum Selection {
    Fields(Seq<usize>),
    Bytes(Seq<usize>),
    Chars(Seq<usize>),
}

impl View for Extract {
    type V = Selection;

    open spec fn view(&self) -> Selection {
        match self {
            Extract::Fields(positions) => Selection::Fields(positions@),
            Extract::Bytes(positions) => Selection::Bytes(positions@),
            Extract::Chars(positions) => Selection::Chars(positions@),
        }
    }
}

/// The item at position `i`, if there is one.
pub open spec fn lookup<T>(items: Seq<T>, i: int) -> Option<T> {
    if 0 <= i < items.len() {
        Some(items[i])
    } else {
        None
    }
}

/// The items that `positions` picks from `items`: for each position in turn
/// the item found there, and nothing for a position beyond the end.
pub open spec fn selected<T>(items: Seq<T>, positions: Seq<usize>) -> Seq<T>
    decreases positions.len(),
{
    if positions.len() == 0 {
        Seq::<T>::empty()
    } else {
        let before = selected(items, positions.drop_last());
        match lookup(items, positions.last() as int) {
            Some(item) => before.push(item),
            None => before,
        }
    }
}

/// A selection made of two lists picks what the first picks, then what the
/// second picks.
pub proof fn lemma_selected_concat<T>(items: Seq<T>, first: Seq<usize>, second: Seq<usize>)
    ensures
        selected(items, first + second) == selected(items, first) + selected(items, second),
    decreases second.len(),
{
    if second.len() == 0 {
        assert(first + second =~= first);
        assert(selected(items, first) + selected(items, second) =~= selected(items, first));
    } else {
        assert((first + second).drop_last() =~= first + second.drop_last());
        lemma_selected_concat(items, first, second.drop_last());
        assert(selected(items, first + second) =~= selected(items, first) + selected(
            items,
            second,
        ));
    }
}

/// Where every listed position exists, exactly the listed items come out,
/// in the order listed: a position listed twice gives its item twice, and
/// positions listed backwards give the items backwards.
pub proof fn lemma_selected_within<T>(items: Seq<T>, positions: Seq<usize>)
    requires
        forall|k: int| 0 <= k < positions.len() ==> positions[k] < items.len(),
    ensures
        selected(items, positions).len() == positions.len(),
        forall|k: int|
            0 <= k < positions.len() ==> #[trigger] selected(items, positions)[k]
                == items[positions[k] as int],
    decreases positions.len(),
{
    if positions.len() > 0 {
        let before = positions.drop_last();
        assert forall|k: int| 0 <= k < before.len() implies before[k] < items.len() by {
            assert(before[k] == positions[k]);
        }
        lemma_selected_within(items, before);
        assert forall|k: int| 0 <= k < positions.len() implies #[trigger] selected(
            items,
            positions,
        )[k] == items[positions[k] as int] by {
            if k < before.len() {
                assert(selected(items, positions)[k] == selected(items, before)[k]);
                assert(before[k] == positions[k]);
            }
        }
    }
}

/// Where no listed position exists, nothing comes out.
pub proof fn lemma_selected_beyond<T>(items: Seq<T>, positions: Seq<usize>)
    requires
        forall|k: int| 0 <= k < positions.len() ==> positions[k] >= items.len(),
    ensures
        selected(items, positions) == Seq::<T>::empty(),
    decreases positions.len(),
{
    if positions.len() > 0 {
        let before = positions.drop_last();
        assert forall|k: int| 0 <= k < before.len() implies before[k] >= items.len() by {
            assert(before[k] == positions[k]);
        }
        lemma_selected_beyond(items, before);
    }
}

/// Picks from `items` what `positions` lists.
pub fn select<T: Copy>(items: &[T], positions: &[usize]) -> (chosen: Vec<T>)
    ensures
        chosen@ == selected(items@, positions@),
{
    let mut chosen: Vec<T> = Vec::new();
    let mut k: usize = 0;
    while k < positions.len()
        invariant
            k <= positions.len(),
            chosen@ == selected(items@, positions@.take(k as int)),
        decreases positions.len() - k,
    {
        let p = positions[k];
        proof {
            assert(positions@.take(k + 1).drop_last() =~= positions@.take(k as int));
        }
        match items.get(p) {
            Some(item) => {
                chosen.push(*item);
            },
            None => {},
        }
        k += 1;
    }
    assert(positions@.take(positions.len() as int) =~= positions@);
    chosen
}

/// The characters of `line` at the positions `char_pos`, as a text.
pub fn extract_chars(line: &str, char_pos: &[usize]) -> (out: String)
    ensures
        out@ == selected(line@, char_pos@),
{
    let chars = chars_of(line);
    let chosen = select(chars.as_slice(), char_pos);
    string_of(&chosen)
}

/// On a line of ASCII characters, picking bytes is picking characters: the
/// bytes picked are the encoding of the characters picked.
pub proof fn lemma_ascii_selection(line: Seq<char>, positions: Seq<usize>)
    requires
        is_ascii_chars(line),
    ensures
        is_ascii_chars(selected(line, positions)),
        selected(encode_utf8(line), positions) == encode_utf8(selected(line, positions)),
    decreases positions.len(),
{
    is_ascii_chars_encode_utf8(line);
    if positions.len() > 0 {
        lemma_ascii_selection(line, positions.drop_last());
        let before = selected(line, positions.drop_last());
        let p = positions.last() as int;
        if p < line.len() {
            let chosen = before.push(line[p]);
            assert forall|i: int| 0 <= i < chosen.len() implies '\0' <= #[trigger] chosen[i]
                <= '\u{7f}' by {
                if i < before.len() {
                    assert(chosen[i] == before[i]);
                }
            }
            is_ascii_chars_encode_utf8(before);
            is_ascii_chars_encode_utf8(chosen);
            assert(encode_utf8(chosen) =~= encode_utf8(before).push(encode_utf8(line)[p]));
        }
    }
}

/// The bytes of `line` at the positions `byte_pos`, decoded as UTF-8 with
/// the replacement character for what does not decode.
///
/// Where the bytes picked are valid UTF-8, the result is their decoding;
/// on a line of ASCII characters it is what `extract_chars` gives.
pub fn extract_bytes(line: &str, byte_pos: &[usize]) -> (out: String)
    ensures
        out@ == lossy_text(selected(encode_utf8(line@), byte_pos@)),
        valid_utf8(selected(encode_utf8(line@), byte_pos@)) ==> out@ == decode_utf8(
            selected(encode_utf8(line@), byte_pos@),
        ),
        is_ascii_chars(line@) ==> out@ == selected(line@, byte_pos@),
{
    let bytes = line.as_bytes();
    let chosen = select(bytes, byte_pos);
    proof {
        if is_ascii_chars(line@) {
            lemma_ascii_selection(line@, byte_pos@);
            encode_utf8_valid_utf8(selected(line@, byte_pos@));
            encode_utf8_decode_utf8(selected(line@, byte_pos@));
        }
    }
    decode_lossy(chosen.as_slice())
}

/// `csv::StringRecord`, the row of fields that the delimited-text reader
/// hands out.
#[verifier::external_type_specification]
#[verifier::external_body]
pub struct ExStringRecord(csv::StringRecord);

/// The fields that a record holds, in order.
pub uninterp spec fn record_fields(record: csv::StringRecord) -> Seq<Seq<char>>;

/// The characters of each text of a sequence.
pub open spec fn field_views(fields: Seq<&str>) -> Seq<Seq<char>> {
    fields.map_values(|f: &str| f@)
}

/// `csv::StringRecord::get`: the field at index `i`, or nothing where the
/// record has no field at that index.
#[verifier::external_body]
pub(crate) fn record_field<'a>(record: &'a csv::StringRecord, i: usize) -> (field: Option<&'a str>)
    ensures
        option_view(field) == lookup(record_fields(*record), i as int),
{
    record.get(i)
}

/// The fields of `record` at the positions `field_pos`.
pub fn extract_fields<'a>(record: &'a csv::StringRecord, field_pos: &'a [usize]) -> (out: Vec<
    &'a str,
>)
    ensures
        field_views(out@) == selected(record_fields(*record), field_pos@),
{
    let mut out: Vec<&'a str> = Vec::new();
    let mut k: usize = 0;
    while k < field_pos.len()
        invariant
            k <= field_pos.len(),
            field_views(out@) == selected(record_fields(*record), field_pos@.take(k as int)),
        decreases field_pos.len() - k,
    {
        let ghost before = field_views(out@);
        proof {
            assert(field_pos@.take(k + 1).drop_last() =~= field_pos@.take(k as int));
        }
        match record_field(record, field_pos[k]) {
            Some(field) => {
                out.push(field);
                assert(field_views(out@) =~= before.push(field@));
            },
            None => {},
        }
        k += 1;
    }
    assert(field_pos@.take(field_pos.len() as int) =~= field_pos@);
    out
}

} // verus!
