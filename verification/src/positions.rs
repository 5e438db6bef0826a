//! Position lists: the text `1,7,3-5` names the positions 0, 6, 2, 3, 4.
//!
//! A list is split at its commas into tokens. A token is a range when the
//! range pattern finds a match in it, and a single number otherwise. Numbers
//! are written counting from one and kept counting from zero. The order of
//! the list is kept, and so is every repetition.

use crate::decimal::{
    decimal_digits, format_usize, is_digit, lemma_decimal_digits_shape, lemma_digits_round_trip,
    parse_usize, usize_value,
};
use crate::pattern::{captured_pair, pair_view, pattern_accepted, pattern_compiles, search_pair};
use crate::text::{chars_of, string_of, text_views};
use vstd::prelude::*;

verus! {

/// The pattern that finds a range in a token: digits, a hyphen, digits, with
/// each run of digits optional as far as the pattern goes.
pub const RANGE_PATTERN: &'static str = "(\\d+)?-(\\d+)?";

/// Why a position list was refused.
#[derive(Debug)]
pub enum ParseError {
    /// A token that is neither a number above zero nor a range of two
    /// numbers; it holds the token as written.
    IllegalValue(String),
    /// A range whose first number is not below its second; it holds both.
    RangeOrder(usize, usize),
}

/// A `ParseError` as a mathematical value.
pub enum ParseFailure {
    IllegalValue(Seq<char>),
    RangeOrder(usize, usize),
}

impl View for ParseError {
    type V = ParseFailure;

    open spec fn view(&self) -> ParseFailure {
        match self {
            ParseError::IllegalValue(token) => ParseFailure::IllegalValue(token@),
            ParseError::RangeOrder(first, second) => ParseFailure::RangeOrder(*first, *second),
        }
    }
}

/// The sentence that reports a failure.
pub open spec fn failure_message(failure: ParseFailure) -> Seq<char> {
    match failure {
        ParseFailure::IllegalValue(token) => "illegal list value: \""@ + token + "\""@,
        ParseFailure::RangeOrder(first, second) => "First number in range ("@ + decimal_digits(
            first as nat,
        ) + ") must be lower than second number ("@ + decimal_digits(second as nat) + ")"@,
    }
}

impl ParseError {
    /// The sentence that reports this error.
    pub fn to_string(&self) -> (message: String)
        ensures
            message@ == failure_message(self@),
    {
        match self {
            ParseError::IllegalValue(token) => {
                let mut message = String::new();
                message.append("illegal list value: \"");
                message.append(token.as_str());
                message.append("\"");
                message
            },
            ParseError::RangeOrder(first, second) => {
                let low = format_usize(*first);
                let high = format_usize(*second);
                let mut message = String::new();
                message.append("First number in range (");
                message.append(low.as_str());
                message.append(") must be lower than second number (");
                message.append(high.as_str());
                message.append(")");
                message
            },
        }
    }
}

/// The outcome of parsing as a mathematical value.
pub open spec fn outcome_view(res: Result<Vec<usize>, ParseError>) -> Result<
    Seq<usize>,
    ParseFailure,
> {
    match res {
        Ok(positions) => Ok(positions@),
        Err(e) => Err(e@),
    }
}

/// The pieces of `s` between its commas, in order. A text without a comma
/// is one piece, the empty text included; a comma at either end borders an
/// empty piece.
pub open spec fn split_tokens(s: Seq<char>) -> Seq<Seq<char>>
    decreases s.len(),
{
    if s.len() == 0 {
        seq![Seq::<char>::empty()]
    } else {
        let before = split_tokens(s.drop_last());
        if s.last() == ',' {
            before.push(Seq::<char>::empty())
        } else {
            before.drop_last().push(before.last().push(s.last()))
        }
    }
}

/// The positions `first - 1, first, .., second - 1`: what the range
/// `first-second` names.
pub open spec fn range_positions(first: usize, second: usize) -> Seq<usize>
    recommends
        1 <= first <= second,
{
    Seq::new((second - first + 1) as nat, |k: int| (first - 1 + k) as usize)
}

/// The positions that one token names, given what the range pattern found
/// in it.
///
/// Where the pattern found a match, the token is a range: both numbers must
/// be there and readable, the first below the second and above zero. Where
/// it found none, the token is a single number above zero.
pub open spec fn token_positions(
    token: Seq<char>,
    found: Option<(Option<Seq<char>>, Option<Seq<char>>)>,
) -> Result<Seq<usize>, ParseFailure> {
    match found {
        Some((Some(low), Some(high))) => match (usize_value(low), usize_value(high)) {
            (Some(first), Some(second)) => if first >= second {
                Err(ParseFailure::RangeOrder(first, second))
            } else if first == 0 {
                Err(ParseFailure::IllegalValue(token))
            } else {
                Ok(range_positions(first, second))
            },
            _ => Err(ParseFailure::IllegalValue(token)),
        },
        Some(_) => Err(ParseFailure::IllegalValue(token)),
        None => match usize_value(token) {
            Some(n) => if n > 0 {
                Ok(seq![(n - 1) as usize])
            } else {
                Err(ParseFailure::IllegalValue(token))
            },
            None => Err(ParseFailure::IllegalValue(token)),
        },
    }
}

/// One outcome after another: the first failure, or both lists joined.
pub open spec fn joined(
    before: Result<Seq<usize>, ParseFailure>,
    after: Result<Seq<usize>, ParseFailure>,
) -> Result<Seq<usize>, ParseFailure> {
    match before {
        Err(e) => Err(e),
        Ok(p) => match after {
            Err(e) => Err(e),
            Ok(q) => Ok(p + q),
        },
    }
}

/// The positions that a sequence of tokens names: those of each token, one
/// token after the other, or the failure of the first token that has one.
pub open spec fn tokens_positions(tokens: Seq<Seq<char>>) -> Result<Seq<usize>, ParseFailure>
    decreases tokens.len(),
{
    if tokens.len() == 0 {
        Ok(Seq::<usize>::empty())
    } else {
        joined(
            tokens_positions(tokens.drop_last()),
            token_positions(tokens.last(), captured_pair(RANGE_PATTERN@, tokens.last())),
        )
    }
}

/// The positions that the list `s` names.
pub open spec fn parsed_positions(s: Seq<char>) -> Result<Seq<usize>, ParseFailure> {
    tokens_positions(split_tokens(s))
}

/// Splits `s` at its commas.
pub fn split_commas(s: &str) -> (tokens: Vec<String>)
    ensures
        text_views(tokens@) == split_tokens(s@),
{
    let chars = chars_of(s);
    let mut tokens: Vec<String> = Vec::new();
    let mut current: Vec<char> = Vec::new();
    let mut i: usize = 0;
    while i < chars.len()
        invariant
            i <= chars.len(),
            chars@ == s@,
            split_tokens(s@.take(i as int)) == text_views(tokens@).push(current@),
        decreases chars.len() - i,
    {
        let c = chars[i];
        let ghost done = text_views(tokens@);
        proof {
            assert(s@.take(i + 1).drop_last() =~= s@.take(i as int));
            assert(done.push(current@).drop_last() =~= done);
        }
        if c == ',' {
            let token = string_of(&current);
            tokens.push(token);
            current = Vec::new();
            assert(text_views(tokens@) =~= done.push(token@));
        } else {
            current.push(c);
        }
        i += 1;
    }
    let ghost done = text_views(tokens@);
    let token = string_of(&current);
    tokens.push(token);
    proof {
        assert(s@.take(chars.len() as int) =~= s@);
        assert(text_views(tokens@) =~= done.push(token@));
    }
    tokens
}

/// The error that cites `token` as written.
fn illegal_value(token: &str) -> (e: ParseError)
    ensures
        e@ == ParseFailure::IllegalValue(token@),
{
    ParseError::IllegalValue(token.to_owned())
}

/// The positions that one token names, given what the range pattern found
/// in it: the groups before and after the hyphen, or no match.
pub fn parse_token(token: &str, found: Option<(Option<&str>, Option<&str>)>) -> (res: Result<
    Vec<usize>,
    ParseError,
>)
    ensures
        outcome_view(res) == token_positions(token@, pair_view(found)),
{
    match found {
        Some((Some(low), Some(high))) => {
            let first = match parse_usize(low) {
                Some(n) => n,
                None => {
                    return Err(illegal_value(token));
                },
            };
            let second = match parse_usize(high) {
                Some(n) => n,
                None => {
                    return Err(illegal_value(token));
                },
            };
            if first >= second {
                return Err(ParseError::RangeOrder(first, second));
            }
            if first == 0 {
                return Err(illegal_value(token));
            }
            let mut positions: Vec<usize> = Vec::new();
            let mut k: usize = first;
            while k < second
                invariant
                    1 <= first <= k <= second,
                    positions@ == range_positions(first, second).take(k - first),
                decreases second - k,
            {
                positions.push(k - 1);
                assert(range_positions(first, second).take(k + 1 - first)
                    =~= range_positions(first, second).take(k - first).push((k - 1) as usize));
                k += 1;
            }
            positions.push(second - 1);
            assert(positions@ =~= range_positions(first, second));
            Ok(positions)
        },
        Some(_) => Err(illegal_value(token)),
        None => match parse_usize(token) {
            Some(n) => {
                if n > 0 {
                    let mut positions: Vec<usize> = Vec::new();
                    positions.push(n - 1);
                    assert(positions@ =~= seq![(n - 1) as usize]);
                    Ok(positions)
                } else {
                    Err(illegal_value(token))
                }
            },
            None => Err(illegal_value(token)),
        },
    }
}

/// Reads a position list.
///
/// The result is `parsed_positions` of the text: the positions of every
/// token in the order written, or the failure of the first token that has
/// one. The engine must accept the range pattern, which `try_parse_pos`
/// finds out.
pub fn parse_pos(range: &str) -> (res: Result<Vec<usize>, ParseError>)
    requires
        pattern_compiles(RANGE_PATTERN@),
    ensures
        outcome_view(res) == parsed_positions(range@),
{
    let tokens = split_commas(range);
    let ghost all = split_tokens(range@);
    let mut positions: Vec<usize> = Vec::new();
    let mut i: usize = 0;
    while i < tokens.len()
        invariant
            i <= tokens.len(),
            pattern_compiles(RANGE_PATTERN@),
            all == split_tokens(range@),
            text_views(tokens@) == all,
            tokens_positions(all.take(i as int)) == Ok::<Seq<usize>, ParseFailure>(positions@),
        decreases tokens.len() - i,
    {
        let token = tokens[i].as_str();
        let found = search_pair(RANGE_PATTERN, token);
        proof {
            assert(all[i as int] == token@);
            assert(all.take(i + 1).drop_last() =~= all.take(i as int));
            assert(all.take(i + 1).last() == token@);
        }
        match parse_token(token, found) {
            Err(e) => {
                proof {
                    lemma_failure_stays(all, i + 1);
                }
                return Err(e);
            },
            Ok(mut here) => {
                positions.append(&mut here);
            },
        }
        i += 1;
    }
    assert(all.take(tokens.len() as int) =~= all);
    Ok(positions)
}

/// Reads a position list, unless the engine refuses the range pattern.
///
/// Returns nothing exactly when the engine refuses the pattern, and what
/// `parse_pos` returns otherwise.
pub fn try_parse_pos(range: &str) -> (res: Option<Result<Vec<usize>, ParseError>>)
    ensures
        res is Some <==> pattern_compiles(RANGE_PATTERN@),
        res matches Some(outcome) ==> outcome_view(outcome) == parsed_positions(range@),
{
    if pattern_accepted(RANGE_PATTERN) {
        Some(parse_pos(range))
    } else {
        None
    }
}

/// Once a token has failed, the tokens after it change nothing.
pub proof fn lemma_failure_stays(tokens: Seq<Seq<char>>, k: int)
    requires
        0 <= k <= tokens.len(),
        tokens_positions(tokens.take(k)) is Err,
    ensures
        tokens_positions(tokens) == tokens_positions(tokens.take(k)),
    decreases tokens.len() - k,
{
    if k == tokens.len() {
        assert(tokens.take(k) =~= tokens);
    } else {
        assert(tokens.drop_last().take(k) =~= tokens.take(k));
        lemma_failure_stays(tokens.drop_last(), k);
    }
}

/// A text always splits into at least one piece.
pub proof fn lemma_split_nonempty(s: Seq<char>)
    ensures
        split_tokens(s).len() >= 1,
    decreases s.len(),
{
    if s.len() > 0 {
        lemma_split_nonempty(s.drop_last());
    }
}

/// A text without a comma is one piece.
pub proof fn lemma_split_single(s: Seq<char>)
    requires
        forall|i: int| 0 <= i < s.len() ==> s[i] != ',',
    ensures
        split_tokens(s) == seq![s],
    decreases s.len(),
{
    if s.len() == 0 {
        assert(s =~= Seq::<char>::empty());
    } else {
        lemma_split_single(s.drop_last());
        assert(s.drop_last().push(s.last()) =~= s);
        assert(seq![s.drop_last()].drop_last().push(s.drop_last().push(s.last())) =~= seq![s]);
    }
}

/// Two texts with a comma between them split into the pieces of the first
/// followed by the pieces of the second.
pub proof fn lemma_split_concat(first: Seq<char>, second: Seq<char>)
    ensures
        split_tokens(first + seq![','] + second) == split_tokens(first) + split_tokens(second),
    decreases second.len(),
{
    let whole = first + seq![','] + second;
    if second.len() == 0 {
        assert(whole.drop_last() =~= first);
        assert(split_tokens(first).push(Seq::<char>::empty()) =~= split_tokens(first)
            + split_tokens(second));
    } else {
        let shorter = second.drop_last();
        assert(whole.drop_last() =~= first + seq![','] + shorter);
        assert(whole.last() == second.last());
        lemma_split_concat(first, shorter);
        lemma_split_nonempty(shorter);
        let a = split_tokens(first);
        let b = split_tokens(shorter);
        if second.last() == ',' {
            assert((a + b).push(Seq::<char>::empty()) =~= a + b.push(Seq::<char>::empty()));
        } else {
            assert((a + b).drop_last() =~= a + b.drop_last());
            assert((a + b).last() == b.last());
            assert((a + b.drop_last()).push(b.last().push(second.last())) =~= a
                + b.drop_last().push(b.last().push(second.last())));
        }
    }
}

/// The tokens of two sequences, one after the other, name what the first
/// sequence names, then what the second names; a failure in the first
/// comes before any in the second.
pub proof fn lemma_tokens_concat(first: Seq<Seq<char>>, second: Seq<Seq<char>>)
    ensures
        tokens_positions(first + second) == joined(
            tokens_positions(first),
            tokens_positions(second),
        ),
    decreases second.len(),
{
    if second.len() == 0 {
        assert(first + second =~= first);
        match tokens_positions(first) {
            Ok(p) => {
                assert(p + Seq::<usize>::empty() =~= p);
            },
            Err(_) => {},
        }
    } else {
        let shorter = second.drop_last();
        assert((first + second).drop_last() =~= first + shorter);
        assert((first + second).last() == second.last());
        lemma_tokens_concat(first, shorter);
        let here = token_positions(second.last(), captured_pair(RANGE_PATTERN@, second.last()));
        match (tokens_positions(first), tokens_positions(shorter), here) {
            (Ok(p), Ok(q), Ok(r)) => {
                assert((p + q) + r =~= p + (q + r));
            },
            _ => {},
        }
    }
}

/// Parsing keeps the order of what is written and merges nothing: a list
/// made of two lists with a comma between them names the positions of the
/// first list, then those of the second, whether or not a position occurs
/// in both. Where either list is refused, so is the whole, for the reason
/// that comes first.
pub proof fn lemma_parse_in_order(first: Seq<char>, second: Seq<char>)
    ensures
        parsed_positions(first + seq![','] + second) == joined(
            parsed_positions(first),
            parsed_positions(second),
        ),
{
    lemma_split_concat(first, second);
    lemma_tokens_concat(split_tokens(first), split_tokens(second));
}

/// The token that names the position `p` alone: `p + 1` in decimal.
pub open spec fn position_text(p: usize) -> Seq<char> {
    decimal_digits((p + 1) as nat)
}

/// The list that names `positions` one by one: their tokens with commas
/// between them.
pub open spec fn list_text(positions: Seq<usize>) -> Seq<char>
    decreases positions.len(),
{
    if positions.len() == 0 {
        Seq::<char>::empty()
    } else if positions.len() == 1 {
        position_text(positions[0])
    } else {
        list_text(positions.drop_last()) + seq![','] + position_text(positions.last())
    }
}

/// True if the range pattern finds no match in the token of any of
/// `positions`.
pub open spec fn plain_tokens(positions: Seq<usize>) -> bool {
    forall|k: int|
        0 <= k < positions.len() ==> captured_pair(
            RANGE_PATTERN@,
            #[trigger] position_text(positions[k]),
        ) is None
}

/// A token written for one position reads back as that position, where the
/// range pattern finds no match in it.
pub proof fn lemma_position_round_trip(p: usize)
    requires
        p < usize::MAX,
    ensures
        token_positions(position_text(p), None) == Ok::<Seq<usize>, ParseFailure>(seq![p]),
        parsed_positions(position_text(p)) == token_positions(
            position_text(p),
            captured_pair(RANGE_PATTERN@, position_text(p)),
        ),
{
    let text = position_text(p);
    lemma_digits_round_trip((p + 1) as nat);
    lemma_decimal_digits_shape((p + 1) as nat);
    assert forall|i: int| 0 <= i < text.len() implies text[i] != ',' by {
        assert(is_digit(text[i]));
    }
    lemma_split_single(text);
    assert(seq![text].drop_last() =~= Seq::<Seq<char>>::empty());
    assert(seq![text].last() == text);
    assert(tokens_positions(Seq::<Seq<char>>::empty()) == Ok::<Seq<usize>, ParseFailure>(
        Seq::<usize>::empty(),
    ));
    let here = token_positions(text, captured_pair(RANGE_PATTERN@, text));
    match here {
        Ok(q) => {
            assert(Seq::<usize>::empty() + q =~= q);
        },
        Err(_) => {},
    }
}

/// True if `positions` is a selection that parsing can give: it lists at
/// least one position, and none of them is the largest number there is.
pub open spec fn can_be_parsed(positions: Seq<usize>) -> bool {
    &&& positions.len() >= 1
    &&& forall|k: int| 0 <= k < positions.len() ==> #[trigger] positions[k] < usize::MAX
}

/// What one token names is never empty and never holds the largest number
/// there is.
pub proof fn lemma_token_shape(
    token: Seq<char>,
    found: Option<(Option<Seq<char>>, Option<Seq<char>>)>,
)
    ensures
        token_positions(token, found) matches Ok(positions) ==> can_be_parsed(positions),
{
}

/// What one or more tokens name is never empty and never holds the largest
/// number there is.
pub proof fn lemma_tokens_shape(tokens: Seq<Seq<char>>)
    requires
        tokens.len() >= 1,
    ensures
        tokens_positions(tokens) matches Ok(positions) ==> can_be_parsed(positions),
    decreases tokens.len(),
{
    let last = tokens.last();
    lemma_token_shape(last, captured_pair(RANGE_PATTERN@, last));
    if tokens.len() == 1 {
        assert(tokens.drop_last() =~= Seq::<Seq<char>>::empty());
        assert(tokens_positions(tokens.drop_last()) == Ok::<Seq<usize>, ParseFailure>(
            Seq::<usize>::empty(),
        ));
    } else {
        lemma_tokens_shape(tokens.drop_last());
    }
}

/// Every selection that parsing gives lists at least one position.
pub proof fn lemma_parsed_shape(s: Seq<char>)
    ensures
        parsed_positions(s) matches Ok(positions) ==> can_be_parsed(positions),
{
    lemma_split_nonempty(s);
    lemma_tokens_shape(split_tokens(s));
}

/// A selection written back as a list of single numbers and read again is
/// the same selection, in the same order. This holds of every selection
/// that parsing can give, and as far as the range pattern finds no match in
/// a number without a hyphen, which is stated here as a condition and not
/// proved of the engine.
pub proof fn lemma_reparse(positions: Seq<usize>)
    requires
        can_be_parsed(positions),
    ensures
        plain_tokens(positions) ==> parsed_positions(list_text(positions)) == Ok::<
            Seq<usize>,
            ParseFailure,
        >(positions),
    decreases positions.len(),
{
    if plain_tokens(positions) {
        let last = positions.last();
        assert(positions[positions.len() - 1] < usize::MAX);
        lemma_position_round_trip(last);
        assert(captured_pair(RANGE_PATTERN@, position_text(positions[positions.len() - 1]))
            is None);
        if positions.len() == 1 {
            assert(positions =~= seq![last]);
        } else {
            let shorter = positions.drop_last();
            assert forall|k: int| 0 <= k < shorter.len() implies captured_pair(
                RANGE_PATTERN@,
                #[trigger] position_text(shorter[k]),
            ) is None by {
                assert(shorter[k] == positions[k]);
            }
            assert forall|k: int| 0 <= k < shorter.len() implies #[trigger] shorter[k]
                < usize::MAX by {
                assert(shorter[k] == positions[k]);
            }
            lemma_reparse(shorter);
            lemma_parse_in_order(list_text(shorter), position_text(last));
            assert(shorter + seq![last] =~= positions);
        }
    }
}

/// Reading a list, writing the selection back as single numbers and
/// reading that again gives the same selection, as far as the range
/// pattern finds no match in a number without a hyphen.
pub proof fn lemma_reparse_parsed(s: Seq<char>)
    ensures
        parsed_positions(s) matches Ok(positions) ==> (plain_tokens(positions)
            ==> parsed_positions(list_text(positions)) == parsed_positions(s)),
{
    lemma_parsed_shape(s);
    match parsed_positions(s) {
        Ok(positions) => {
            lemma_reparse(positions);
        },
        Err(_) => {},
    }
}

} // verus!
