//! The value of a digit's place: what a digit contributes to the number,
//! read off the characters that follow it, and what becomes of the number
//! when a digit is replaced or two digits change places.

use crate::laws::{lemma_compound_char_classified, lemma_decided_action_wf, lemma_run_concat};
use crate::numeral::{classify_spec, Symbol};
use crate::reading::{counted, decide_spec, kanji_value, pow10, Action, Reading, SequenceState};
use vstd::prelude::*;

verus! {

/// Whether `c` is one of the ten digits.
pub open spec fn is_digit(c: char) -> bool {
    classify_spec(c) matches Some(Symbol::Digit(_))
}

/// The value of the digit `c`; zero for any other character.
pub open spec fn digit_of(c: char) -> nat {
    match classify_spec(c) {
        Some(Symbol::Digit(d)) => d as nat,
        _ => 0,
    }
}

/// What a pending digit `digit` comes to within its block when `rest` is what
/// follows it: before a place character, the digit (or one, where it is zero)
/// times the factor; before anything else, and at the end, the digit itself.
pub open spec fn digit_weight(digit: nat, rest: Seq<char>) -> nat {
    if rest.len() > 0 {
        match classify_spec(rest[0]) {
            Some(Symbol::Multiplier(f)) => counted(digit) * (f as nat),
            _ => digit,
        }
    } else {
        digit
    }
}

/// The exponent of the scale word that closes the block in progress, when
/// `rest` is what is still to be read and the tracker is in state `sequence`:
/// the exponent of the first scale word completed in `rest`, and zero where
/// `rest` completes none.
pub open spec fn scale_exponent(sequence: SequenceState, rest: Seq<char>) -> nat
    decreases rest.len(),
{
    if rest.len() == 0 {
        0
    } else {
        match decide_spec(sequence, rest[0]) {
            None => 0,
            Some(Action::Flush(e)) => e as nat,
            Some(action) => scale_exponent(action.next_sequence(), rest.drop_first()),
        }
    }
}

/// What the digit `digit` contributes to the number when `rest` follows it:
/// its weight within the block, times the power of ten of the scale word that
/// closes the block.
pub open spec fn contribution(digit: nat, rest: Seq<char>) -> nat {
    digit_weight(digit, rest) * pow10(scale_exponent(SequenceState::Idle, rest))
}

/// The number read from `state` over `text`, or `None` where `text` is
/// rejected.
pub open spec fn outcome(state: Reading, text: Seq<char>) -> Option<nat> {
    match state.run(text) {
        Some(end) => Some(end.finish()),
        None => None,
    }
}

/// Whether a text is accepted depends on the tracker state alone, not on the
/// numbers read so far.
pub proof fn lemma_acceptance_by_sequence(a: Reading, b: Reading, text: Seq<char>)
    requires
        a.sequence == b.sequence,
    ensures
        a.run(text) is Some <==> b.run(text) is Some,
    decreases text.len(),
{
    if text.len() > 0 {
        match decide_spec(a.sequence, text[0]) {
            Some(action) => {
                lemma_acceptance_by_sequence(
                    a.apply(action),
                    b.apply(action),
                    text.drop_first(),
                );
            },
            None => {},
        }
    }
}

/// Two scans that differ only in the total end with numbers that differ by as
/// much.
pub proof fn lemma_total_carries(a: Reading, b: Reading, text: Seq<char>)
    requires
        a.block == b.block,
        a.digit == b.digit,
        a.sequence == b.sequence,
    ensures
        outcome(a, text) is Some <==> outcome(b, text) is Some,
        outcome(a, text) is Some ==> outcome(b, text)->0 - outcome(a, text)->0 == b.total
            - a.total,
    decreases text.len(),
{
    if text.len() > 0 {
        match decide_spec(a.sequence, text[0]) {
            Some(action) => {
                lemma_total_carries(a.apply(action), b.apply(action), text.drop_first());
            },
            None => {},
        }
    }
}

/// Two scans that differ only in the block in progress end with numbers that
/// differ by the difference of the blocks, times the power of ten of the
/// scale word that closes the block.
pub proof fn lemma_block_carries(a: Reading, b: Reading, text: Seq<char>)
    requires
        a.total == b.total,
        a.digit == b.digit,
        a.sequence == b.sequence,
    ensures
        outcome(a, text) is Some <==> outcome(b, text) is Some,
        outcome(a, text) is Some ==> outcome(b, text)->0 - outcome(a, text)->0 == (b.block
            - a.block) * pow10(scale_exponent(a.sequence, text)),
    decreases text.len(),
{
    let gap = b.block - a.block;
    if text.len() == 0 {
        assert(pow10(0) == 1) by {
            vstd::arithmetic::power::lemma_pow0(10);
        }
        assert(scale_exponent(a.sequence, text) == 0);
    } else {
        match decide_spec(a.sequence, text[0]) {
            Some(Action::Flush(e)) => {
                let scale = pow10(e as nat);
                assert((b.block + b.digit) * scale - (a.block + a.digit) * scale == gap * scale)
                    by (nonlinear_arith)
                    requires
                        gap == b.block - a.block,
                        a.digit == b.digit,
                ;
                lemma_total_carries(
                    a.apply(Action::Flush(e)),
                    b.apply(Action::Flush(e)),
                    text.drop_first(),
                );
            },
            Some(action) => {
                lemma_block_carries(a.apply(action), b.apply(action), text.drop_first());
                assert(a.apply(action).block - b.apply(action).block == a.block - b.block);
                assert(scale_exponent(a.sequence, text) == scale_exponent(
                    action.next_sequence(),
                    text.drop_first(),
                ));
            },
            None => {},
        }
    }
}

/// Two scans that differ only in the pending digit end with numbers that
/// differ by the difference of what the two digits contribute.
pub proof fn lemma_digit_carries(a: Reading, b: Reading, text: Seq<char>)
    requires
        a.total == b.total,
        a.block == b.block,
        a.sequence == b.sequence,
    ensures
        outcome(a, text) is Some <==> outcome(b, text) is Some,
        outcome(a, text) is Some ==> outcome(b, text)->0 - outcome(a, text)->0 == (digit_weight(
            b.digit,
            text,
        ) - digit_weight(a.digit, text)) * pow10(scale_exponent(a.sequence, text)),
    decreases text.len(),
{
    if text.len() == 0 {
        assert(pow10(0) == 1) by {
            vstd::arithmetic::power::lemma_pow0(10);
        }
        assert(scale_exponent(a.sequence, text) == 0);
        assert(digit_weight(a.digit, text) == a.digit && digit_weight(b.digit, text) == b.digit);
    } else {
        let c = text[0];
        let rest = text.drop_first();
        lemma_decided_action_wf(a.sequence, c);
        if let SequenceState::Within { word, matched } = a.sequence {
            if matched < word.len_spec() {
                lemma_compound_char_classified(word, matched as int);
            }
        }
        match decide_spec(a.sequence, c) {
            Some(Action::PushDigit(d)) => {
                lemma_block_carries(
                    a.apply(Action::PushDigit(d)),
                    b.apply(Action::PushDigit(d)),
                    rest,
                );
            },
            Some(Action::Multiply(f)) => {
                lemma_block_carries(
                    a.apply(Action::Multiply(f)),
                    b.apply(Action::Multiply(f)),
                    rest,
                );
            },
            Some(Action::Flush(e)) => {
                let scale = pow10(e as nat);
                assert((b.block + b.digit) * scale - (a.block + a.digit) * scale == (b.digit
                    - a.digit) * scale) by (nonlinear_arith)
                    requires
                        a.block == b.block,
                ;
                lemma_total_carries(
                    a.apply(Action::Flush(e)),
                    b.apply(Action::Flush(e)),
                    rest,
                );
            },
            Some(Action::Advance { word, matched }) => {
                let action = Action::Advance { word, matched };
                lemma_digit_carries(a.apply(action), b.apply(action), rest);
                if rest.len() > 0 && outcome(a, text) is Some {
                    lemma_compound_char_classified(word, matched as int);
                }
            },
            None => {},
        }
    }
}

/// Replacing one digit of a text by another digit keeps a numeral a numeral,
/// and changes its value by the difference of what the two digits contribute
/// at that place.
pub proof fn lemma_digit_replaced(text: Seq<char>, i: int, c: char)
    requires
        0 <= i < text.len(),
        is_digit(text[i]),
        is_digit(c),
    ensures
        kanji_value(text.update(i, c)) is Some <==> kanji_value(text) is Some,
        kanji_value(text) is Some ==> kanji_value(text.update(i, c))->0 - kanji_value(text)->0
            == contribution(digit_of(c), text.skip(i + 1)) - contribution(
            digit_of(text[i]),
            text.skip(i + 1),
        ),
{
    let before = text.take(i);
    let rest = text.skip(i + 1);
    let start = Reading::initial();
    assert(text == before + (seq![text[i]] + rest));
    assert(text.update(i, c) == before + (seq![c] + rest));
    lemma_run_concat(start, before, seq![text[i]] + rest);
    lemma_run_concat(start, before, seq![c] + rest);
    if let Some(middle) = start.run(before) {
        assert((seq![text[i]] + rest)[0] == text[i]);
        assert((seq![c] + rest)[0] == c);
        assert((seq![text[i]] + rest).drop_first() == rest);
        assert((seq![c] + rest).drop_first() == rest);
        match middle.sequence {
            SequenceState::Idle => {
                let a = middle.apply(Action::PushDigit(digit_of(text[i]) as u8));
                let b = middle.apply(Action::PushDigit(digit_of(c) as u8));
                assert(middle.step(text[i]) == Some(a));
                assert(middle.step(c) == Some(b));
                lemma_digit_carries(a, b, rest);
                let scale = pow10(scale_exponent(SequenceState::Idle, rest));
                assert((digit_weight(b.digit, rest) - digit_weight(a.digit, rest)) * scale
                    == digit_weight(b.digit, rest) * scale - digit_weight(a.digit, rest) * scale)
                    by (nonlinear_arith);
            },
            SequenceState::Within { word, matched } => {
                if matched < word.len_spec() {
                    lemma_compound_char_classified(word, matched as int);
                }
            },
        }
    }
}

/// Exchanging the digits at two places of a text keeps a numeral a numeral,
/// and changes its value as the places say: each digit now contributes at the
/// other's place.
pub proof fn lemma_digits_swapped(text: Seq<char>, i: int, j: int)
    requires
        0 <= i < j < text.len(),
        is_digit(text[i]),
        is_digit(text[j]),
    ensures
        ({
            let swapped = text.update(i, text[j]).update(j, text[i]);
            let first = digit_of(text[i]);
            let second = digit_of(text[j]);
            let after_first = text.skip(i + 1);
            let after_second = text.skip(j + 1);
            &&& kanji_value(swapped) is Some <==> kanji_value(text) is Some
            &&& kanji_value(text) is Some ==> kanji_value(swapped)->0 - kanji_value(text)->0 == (
            contribution(second, after_first) + contribution(first, after_second)) - (contribution(
                first,
                after_first,
            ) + contribution(second, after_second))
        }),
{
    let half = text.update(i, text[j]);
    lemma_digit_replaced(text, i, text[j]);
    lemma_digit_replaced(half, j, text[i]);
    assert(half.skip(j + 1) == text.skip(j + 1));
    assert(half[j] == text[j]);
}

/// Whether the character before place `i` of `text` is a digit.
pub open spec fn follows_digit(text: Seq<char>, i: int) -> bool {
    0 < i <= text.len() && is_digit(text[i - 1])
}

/// What the character at place `i` of `text` contributes to the number.
///
/// A digit contributes as [`contribution`] says. A place character
/// contributes through the digit before it; where no digit stands before it,
/// it counts once by itself. Scale words and their characters contribute
/// nothing of their own: they say where digits land.
pub open spec fn place_contribution(text: Seq<char>, i: int) -> nat {
    let rest = text.skip(i + 1);
    match classify_spec(text[i]) {
        Some(Symbol::Digit(d)) => contribution(d as nat, rest),
        Some(Symbol::Multiplier(f)) => {
            if follows_digit(text, i) {
                0
            } else {
                (f as nat) * pow10(scale_exponent(SequenceState::Idle, rest))
            }
        },
        _ => 0,
    }
}

/// The sum of what the characters of `text` from place `from` on contribute.
pub open spec fn places_sum(text: Seq<char>, from: int) -> nat
    decreases text.len() - from,
{
    if 0 <= from < text.len() {
        place_contribution(text, from) + places_sum(text, from + 1)
    } else {
        0
    }
}

/// What a state reached before place `k` of `text` holds, valued where it
/// will land: the total, the block in progress at the scale that closes it,
/// and the pending digit at its place.
pub open spec fn carried(state: Reading, text: Seq<char>, k: int) -> nat {
    let rest = text.skip(k);
    let scale = pow10(scale_exponent(state.sequence, rest));
    let pending = if state.digit == 0 && !follows_digit(text, k) {
        0
    } else {
        digit_weight(state.digit, rest) * scale
    };
    state.total + state.block * scale + pending
}

/// The number read from place `k` on is what the state carries plus what the
/// characters from `k` on contribute, for a state whose pending digit, if
/// any, is the digit just read.
pub proof fn lemma_outcome_is_carried_plus_places(state: Reading, text: Seq<char>, k: int)
    requires
        0 <= k <= text.len(),
        state.sequence is Idle && !follows_digit(text, k) ==> state.digit == 0,
    ensures
        outcome(state, text.skip(k)) matches Some(v) ==> v == carried(state, text, k) + places_sum(
            text,
            k,
        ),
    decreases text.len() - k,
{
    let rest = text.skip(k);
    let scale = pow10(scale_exponent(state.sequence, rest));
    if k == text.len() {
        assert(rest.len() == 0);
        assert(pow10(0) == 1) by {
            vstd::arithmetic::power::lemma_pow0(10);
        }
        assert(scale == 1);
        assert(digit_weight(state.digit, rest) == state.digit);
    } else {
        let c = text[k];
        let after = text.skip(k + 1);
        assert(rest[0] == c);
        assert(rest.drop_first() == after);
        lemma_decided_action_wf(state.sequence, c);
        if let SequenceState::Within { word, matched } = state.sequence {
            if matched < word.len_spec() {
                lemma_compound_char_classified(word, matched as int);
            }
        }
        if let Some(action) = decide_spec(state.sequence, c) {
            let next = state.apply(action);
            lemma_outcome_is_carried_plus_places(next, text, k + 1);
            if outcome(next, after) is Some {
                let next_scale = pow10(scale_exponent(next.sequence, after));
                let block = state.block;
                let digit = state.digit;
                match action {
                    Action::PushDigit(d) => {
                        assert(scale == next_scale);
                        assert(follows_digit(text, k + 1));
                        assert((block + digit) * scale == block * scale + digit * scale)
                            by (nonlinear_arith);
                    },
                    Action::Multiply(f) => {
                        assert(scale == next_scale);
                        assert(!follows_digit(text, k + 1));
                        let weight = counted(digit) * (f as nat);
                        assert((block + weight) * scale == block * scale + weight * scale)
                            by (nonlinear_arith);
                    },
                    Action::Flush(e) => {
                        assert(scale == pow10(e as nat));
                        assert(!follows_digit(text, k + 1));
                        assert(digit_weight(digit, rest) == digit);
                        assert((block + digit) * scale == block * scale + digit * scale)
                            by (nonlinear_arith);
                        assert(0 * next_scale == 0);
                    },
                    Action::Advance { word, matched } => {
                        assert(scale == next_scale);
                        assert(!follows_digit(text, k + 1));
                        assert(digit_weight(digit, rest) == digit);
                        if after.len() > 0 {
                            lemma_compound_char_classified(word, matched as int);
                        }
                        assert(digit_weight(digit, after) == digit);
                    },
                }
            }
        }
    }
}

/// The value of a numeral is the sum of what its characters contribute: each
/// digit its weight at its place, each place character with no digit before
/// it its factor, both at the scale of the word that closes their block.
pub proof fn lemma_value_is_sum_of_places(text: Seq<char>)
    ensures
        kanji_value(text) matches Some(v) ==> v == places_sum(text, 0),
{
    assert(text.skip(0) == text);
    lemma_outcome_is_carried_plus_places(Reading::initial(), text, 0);
    assert(0 * pow10(scale_exponent(SequenceState::Idle, text)) == 0);
}

/// The factor of the place character at the head of `rest`; one where `rest`
/// begins with none.
pub open spec fn place_factor_at(rest: Seq<char>) -> nat {
    if rest.len() > 0 {
        match classify_spec(rest[0]) {
            Some(Symbol::Multiplier(f)) => f as nat,
            _ => 1,
        }
    } else {
        1
    }
}

/// Whether the places `i` and `j` of `text`, `i` before `j`, lie in the same
/// block: from `i` to `j` there are only digits and place characters.
pub open spec fn in_same_block(text: Seq<char>, i: int, j: int) -> bool {
    &&& 0 <= i <= j < text.len()
    &&& forall|k: int|
        i < k <= j ==> match #[trigger] classify_spec(text[k]) {
            Some(Symbol::Digit(_)) => true,
            Some(Symbol::Multiplier(_)) => true,
            _ => false,
        }
}

/// Two places of one block are closed by the same scale word.
pub proof fn lemma_same_block_same_scale(text: Seq<char>, i: int, j: int)
    requires
        in_same_block(text, i, j),
    ensures
        scale_exponent(SequenceState::Idle, text.skip(i + 1)) == scale_exponent(
            SequenceState::Idle,
            text.skip(j + 1),
        ),
    decreases j - i,
{
    if i < j {
        let rest = text.skip(i + 1);
        assert(rest[0] == text[i + 1]);
        assert(rest.drop_first() == text.skip(i + 2));
        assert(classify_spec(text[i + 1]) is Some);
        lemma_same_block_same_scale(text, i + 1, j);
    }
}

/// Exchanging two digits of one block of a numeral, neither of them zero,
/// changes the value by the difference of the digits times the difference of
/// their places, at the scale of the block.
pub proof fn lemma_digits_swapped_in_block(text: Seq<char>, i: int, j: int)
    requires
        in_same_block(text, i, j),
        i < j,
        is_digit(text[i]),
        is_digit(text[j]),
        digit_of(text[i]) > 0,
        digit_of(text[j]) > 0,
        kanji_value(text) is Some,
    ensures
        ({
            let swapped = text.update(i, text[j]).update(j, text[i]);
            let scale = pow10(scale_exponent(SequenceState::Idle, text.skip(j + 1)));
            &&& kanji_value(swapped) is Some
            &&& kanji_value(swapped)->0 - kanji_value(text)->0 == (digit_of(text[j]) - digit_of(
                text[i],
            )) * (place_factor_at(text.skip(i + 1)) - place_factor_at(text.skip(j + 1))) * scale
        }),
{
    lemma_digits_swapped(text, i, j);
    lemma_same_block_same_scale(text, i, j);
    let first = digit_of(text[i]) as int;
    let second = digit_of(text[j]) as int;
    let near = place_factor_at(text.skip(i + 1)) as int;
    let far = place_factor_at(text.skip(j + 1)) as int;
    let scale = pow10(scale_exponent(SequenceState::Idle, text.skip(j + 1))) as int;
    assert(digit_weight(first as nat, text.skip(i + 1)) == first * near);
    assert(digit_weight(second as nat, text.skip(i + 1)) == second * near);
    assert(digit_weight(first as nat, text.skip(j + 1)) == first * far);
    assert(digit_weight(second as nat, text.skip(j + 1)) == second * far);
    assert(((second * near) * scale + (first * far) * scale) - ((first * near) * scale + (second
        * far) * scale) == (second - first) * (near - far) * scale) by (nonlinear_arith);
}

} // verus!
