//! The parser: one pass over the text, with the total kept as a `BigUint`.

use crate::bignum::{biguint_add_assign, biguint_mul, biguint_pow, biguint_value, to_biguint};
use crate::error::KanjiNumberParseError;
use crate::reading::{decide, kanji_value, pow10, Action, Reading, SequenceState};
use num_bigint::BigUint;
use vstd::prelude::*;
use vstd::string::StringSliceAdditionalSpecFns;
use vstd::utf8::encode_utf8;

verus! {

/// The most that one character can add to the block in progress: nine
/// thousands.
pub const BLOCK_GROWTH: u128 = 9000;

/// A text has no more characters than its UTF-8 encoding has bytes.
pub proof fn lemma_chars_at_most_bytes(chars: Seq<char>)
    ensures
        chars.len() <= encode_utf8(chars).len(),
    decreases chars.len(),
{
    if chars.len() > 0 {
        lemma_chars_at_most_bytes(chars.drop_first());
    }
}

/// A bound on the number of characters of `text` that fits a `usize`: the
/// number of its bytes.
fn char_count_bound(text: &str) -> (bound: usize)
    ensures
        text@.len() <= bound,
{
    proof {
        lemma_chars_at_most_bytes(text@);
    }
    text.as_bytes().len()
}

/// Adds `amount` times ten to the power `exponent` to `total`.
pub fn add_scaled(total: &mut BigUint, amount: u128, exponent: u8)
    ensures
        biguint_value(*final(total)) == biguint_value(*old(total)) + amount * pow10(
            exponent as nat,
        ),
{
    let ten = to_biguint(10).unwrap();
    let scale = biguint_pow(ten, exponent as usize);
    let term = biguint_mul(to_biguint(amount).unwrap(), scale);
    biguint_add_assign(total, term);
}

/// Reads the kanji numeral `s`.
///
/// Returns the number that `s` denotes, exactly and whatever its size, and
/// fails where `s` is no numeral: [`kanji_value`] says which texts are, and
/// what they denote. The result is a function of the text alone.
///
/// The text is read once, from left to right. A text that ends within a
/// compound scale word is accepted, and the unfinished word counts for
/// nothing.
pub fn parse(s: String) -> (result: Result<BigUint, KanjiNumberParseError>)
    ensures
        match result {
            Ok(n) => kanji_value(s@) == Some(biguint_value(n)),
            Err(_) => kanji_value(s@) is None,
        },
{
    let text = s.as_str();
    // The block in progress grows by at most `BLOCK_GROWTH` with each
    // character, so with a bound on their number it fits a `u128`.
    let bound = char_count_bound(text);
    let mut total = to_biguint(0).unwrap();
    let mut block: u128 = 0;
    let mut digit: u8 = 0;
    let mut sequence = SequenceState::Idle;
    let chars = text.chars();
    assert(s@.skip(0) == s@);
    for c in it: chars
        invariant
            it.seq() == s@,
            s@.len() <= bound,
            block <= BLOCK_GROWTH * it.index(),
            digit <= 9,
            (Reading {
                total: biguint_value(total),
                block: block as nat,
                digit: digit as nat,
                sequence,
            }).run(s@.skip(it.index())) == Reading::initial().run(s@),
    {
        let ghost rest = s@.skip(it.index());
        assert(rest.len() > 0 && rest[0] == c);
        assert(rest.drop_first() == s@.skip(it.index() + 1));
        match decide(sequence, c) {
            None => {
                return Err(KanjiNumberParseError);
            },
            Some(Action::PushDigit(d)) => {
                block = block + digit as u128;
                digit = d;
                sequence = SequenceState::Idle;
            },
            Some(Action::Multiply(factor)) => {
                let times: u128 = if digit == 0 {
                    1
                } else {
                    digit as u128
                };
                assert(times * factor <= BLOCK_GROWTH) by (nonlinear_arith)
                    requires
                        times <= 9,
                        factor <= 1000,
                ;
                block = block + times * factor as u128;
                digit = 0;
                sequence = SequenceState::Idle;
            },
            Some(Action::Flush(exponent)) => {
                add_scaled(&mut total, block + digit as u128, exponent);
                block = 0;
                digit = 0;
                sequence = SequenceState::Idle;
            },
            Some(Action::Advance { word, matched }) => {
                sequence = SequenceState::Within { word, matched };
            },
        }
    }
    let last = to_biguint(block + digit as u128).unwrap();
    biguint_add_assign(&mut total, last);
    Ok(total)
}

} // verus!
