//! What holds of every numeral: theorems about [`kanji_value`], the meaning
//! that [`crate::parse`] computes.

use crate::numeral::{classify_spec, CompoundWord, Symbol};
use crate::reading::{decide_spec, kanji_value, Reading, SequenceState};
use vstd::prelude::*;

verus! {

/// The classifier returns only symbols of the alphabet: digits up to nine,
/// the three place factors, exponents that are multiples of four, and
/// positions within their word.
pub proof fn lemma_classified_symbol_wf(c: char)
    ensures
        classify_spec(c) matches Some(symbol) ==> symbol.wf(),
{
}

/// The character at place `k` of a compound word is classified as exactly
/// that: no character stands in two tables, or twice in one.
pub proof fn lemma_compound_char_classified(word: CompoundWord, k: int)
    requires
        0 <= k < word.len_spec(),
    ensures
        classify_spec(word.chars()[k]) == Some(Symbol::Compound { word, position: k as u8 }),
{
}

/// An accepted character leads to a possible action and a possible tracker
/// state.
pub proof fn lemma_decided_action_wf(sequence: SequenceState, c: char)
    ensures
        decide_spec(sequence, c) matches Some(action) ==> action.wf()
            && action.next_sequence().wf(),
{
    lemma_classified_symbol_wf(c);
}

/// A character outside the alphabet is accepted in no tracker state.
pub proof fn lemma_unrecognized_char_undecided(sequence: SequenceState, c: char)
    requires
        classify_spec(c) is None,
    ensures
        decide_spec(sequence, c) is None,
{
    if let SequenceState::Within { word, matched } = sequence {
        if matched < word.len_spec() {
            lemma_compound_char_classified(word, matched as int);
        }
    }
}

/// Every state of a scan is well formed: the pending digit is at most nine,
/// and the tracker is idle or strictly inside a compound word.
pub proof fn lemma_run_preserves_wf(state: Reading, text: Seq<char>)
    requires
        state.wf(),
    ensures
        state.run(text) matches Some(end) ==> end.wf(),
    decreases text.len(),
{
    if text.len() > 0 {
        lemma_decided_action_wf(state.sequence, text[0]);
        if let Some(next) = state.step(text[0]) {
            lemma_run_preserves_wf(next, text.drop_first());
        }
    }
}

/// Reading a text is reading its first part and then, from the state
/// reached, its second part; a first part that is rejected rejects the whole.
pub proof fn lemma_run_concat(state: Reading, first: Seq<char>, second: Seq<char>)
    ensures
        state.run(first + second) == match state.run(first) {
            Some(middle) => middle.run(second),
            None => None,
        },
    decreases first.len(),
{
    if first.len() == 0 {
        assert(first + second == second);
    } else {
        let whole = first + second;
        assert(whole[0] == first[0]);
        assert(whole.drop_first() == first.drop_first() + second);
        if let Some(next) = state.step(first[0]) {
            lemma_run_concat(next, first.drop_first(), second);
        }
    }
}

/// The total never shrinks during a scan.
pub proof fn lemma_total_never_shrinks(state: Reading, text: Seq<char>)
    ensures
        state.run(text) matches Some(end) ==> end.total >= state.total,
    decreases text.len(),
{
    if text.len() > 0 {
        if let Some(next) = state.step(text[0]) {
            lemma_total_never_shrinks(next, text.drop_first());
        }
    }
}

/// A scan that meets a character outside the alphabet is rejected, whatever
/// state it started in.
pub proof fn lemma_run_rejects_unrecognized(state: Reading, text: Seq<char>, i: int)
    requires
        0 <= i < text.len(),
        classify_spec(text[i]) is None,
    ensures
        state.run(text) is None,
    decreases text.len(),
{
    if i == 0 {
        lemma_unrecognized_char_undecided(state.sequence, text[0]);
    } else if let Some(next) = state.step(text[0]) {
        assert(text.drop_first()[i - 1] == text[i]);
        lemma_run_rejects_unrecognized(next, text.drop_first(), i - 1);
    }
}

/// A text that holds a character outside the alphabet, at whatever place, is
/// no numeral: it is rejected, and never read as if it ended before that
/// character.
pub proof fn lemma_unrecognized_char_rejected(text: Seq<char>, i: int)
    requires
        0 <= i < text.len(),
        classify_spec(text[i]) is None,
    ensures
        kanji_value(text) is None,
{
    lemma_run_rejects_unrecognized(Reading::initial(), text, i);
}

/// Inserting a character from outside the alphabet anywhere into a text,
/// numeral or not, gives a text that is rejected.
pub proof fn lemma_inserted_unrecognized_char_rejected(text: Seq<char>, i: int, c: char)
    requires
        0 <= i <= text.len(),
        classify_spec(c) is None,
    ensures
        kanji_value(text.insert(i, c)) is None,
{
    assert(text.insert(i, c)[i] == c);
    lemma_unrecognized_char_rejected(text.insert(i, c), i);
}

/// A text that begins with a rejected text is rejected: nothing that follows
/// a failure mends it.
pub proof fn lemma_rejected_prefix_rejects(first: Seq<char>, second: Seq<char>)
    requires
        kanji_value(first) is None,
    ensures
        kanji_value(first + second) is None,
{
    lemma_run_concat(Reading::initial(), first, second);
}

} // verus!
