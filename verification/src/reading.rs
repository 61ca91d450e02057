//! What a kanji numeral means: a scan over its characters, from left to
//! right, that keeps a pending digit, the value of the block of four in
//! progress, the total so far, and the progress through a compound scale word.
//!
//! Everything here but [`decide`] is a model: mathematical functions over
//! unbounded naturals and `Seq<char>`, which the parser is proved against.

use crate::numeral::{classify, classify_spec, CompoundWord, Symbol};
use vstd::arithmetic::power::pow;
use vstd::prelude::*;

verus! {

/// Progress through a compound scale word.
#[derive(Debug, Clone, Copy, PartialEq, Eq, Structural)]
pub enum SequenceState {
    /// No compound word is in progress.
    Idle,
    /// The first `matched` characters of `word` have been read, and at least
    /// one more is to come.
    Within { word: CompoundWord, matched: u8 },
}

/// What one accepted character does to the scan.
#[derive(Debug, Clone, Copy, PartialEq, Eq, Structural)]
pub enum Action {
    /// A digit: it becomes the pending digit.
    PushDigit(u8),
    /// A place character: the pending digit, times this factor, joins the
    /// block.
    Multiply(u16),
    /// A scale word is complete: the block, times ten to this exponent, joins
    /// the total.
    Flush(u8),
    /// A compound word has begun or gone on: so many of its characters are
    /// read now.
    Advance { word: CompoundWord, matched: u8 },
}

impl SequenceState {
    /// A word in progress has at least one character read and one to come.
    pub open spec fn wf(self) -> bool {
        match self {
            SequenceState::Idle => true,
            SequenceState::Within { word, matched } => 1 <= matched < word.len_spec(),
        }
    }
}

impl Action {
    /// The values an action can take: what [`decide_spec`] ever returns.
    pub open spec fn wf(self) -> bool {
        match self {
            Action::PushDigit(d) => d <= 9,
            Action::Multiply(f) => f == 10 || f == 100 || f == 1000,
            Action::Flush(e) => 4 <= e <= 68 && e % 4 == 0,
            Action::Advance { word, matched } => 1 <= matched < word.len_spec(),
        }
    }

    /// The tracker state after the action: a word in progress after
    /// `Advance`, none after anything else.
    pub open spec fn next_sequence(self) -> SequenceState {
        match self {
            Action::Advance { word, matched } => SequenceState::Within { word, matched },
            _ => SequenceState::Idle,
        }
    }
}

/// What the character `c` does when the tracker is in state `sequence`, or
/// `None` where the numeral is to be rejected at `c`.
///
/// Within a compound word only the word's next character is accepted; with
/// its last character the word is complete. (A state that claims more
/// characters read than the word has accepts nothing.) With no word in
/// progress, digits,
/// place characters and one-character scale words are accepted, and of the
/// compound words' characters only a first one.
pub open spec fn decide_spec(sequence: SequenceState, c: char) -> Option<Action> {
    match sequence {
        SequenceState::Within { word, matched } => {
            if matched >= word.len_spec() || c != word.chars()[matched as int] {
                None
            } else if matched + 1 == word.len_spec() {
                Some(Action::Flush(word.exponent_spec() as u8))
            } else {
                Some(Action::Advance { word, matched: (matched + 1) as u8 })
            }
        },
        SequenceState::Idle => {
            match classify_spec(c) {
                Some(Symbol::Digit(d)) => Some(Action::PushDigit(d)),
                Some(Symbol::Multiplier(f)) => Some(Action::Multiply(f)),
                Some(Symbol::Power(e)) => Some(Action::Flush(e)),
                Some(Symbol::Compound { word, position }) => {
                    if position == 0 {
                        Some(Action::Advance { word, matched: 1 })
                    } else {
                        None
                    }
                },
                None => None,
            }
        },
    }
}

/// Ten to the power `e`.
pub open spec fn pow10(e: nat) -> nat {
    pow(10, e) as nat
}

/// How often a place character counts after the pending digit `digit`: as
/// often as the digit says, and once where there is none.
pub open spec fn counted(digit: nat) -> nat {
    if digit == 0 {
        1
    } else {
        digit
    }
}

/// The state of a scan.
pub struct Reading {
    /// The sum of the blocks that a scale word has closed.
    pub total: nat,
    /// The value of the block in progress, without the pending digit.
    pub block: nat,
    /// The last digit read, which no place character has followed yet; zero
    /// where there is none.
    pub digit: nat,
    /// Progress through a compound scale word.
    pub sequence: SequenceState,
}

impl Reading {
    /// The state before the first character.
    pub open spec fn initial() -> Reading {
        Reading { total: 0, block: 0, digit: 0, sequence: SequenceState::Idle }
    }

    /// A pending digit is a digit, and the tracker state is a possible one.
    pub open spec fn wf(self) -> bool {
        self.digit <= 9 && self.sequence.wf()
    }

    /// The state after `action`.
    ///
    /// A digit first sends the digit before it, which no place character
    /// followed, into the block as units. A place character with no digit
    /// before it counts once. A scale word takes the pending digit into the
    /// block as units and empties the block into the total.
    pub open spec fn apply(self, action: Action) -> Reading {
        match action {
            Action::PushDigit(d) => Reading {
                block: self.block + self.digit,
                digit: d as nat,
                sequence: SequenceState::Idle,
                ..self
            },
            Action::Multiply(f) => Reading {
                block: self.block + counted(self.digit) * (f as nat),
                digit: 0,
                sequence: SequenceState::Idle,
                ..self
            },
            Action::Flush(e) => Reading {
                total: self.total + (self.block + self.digit) * pow10(e as nat),
                block: 0,
                digit: 0,
                sequence: SequenceState::Idle,
            },
            Action::Advance { word, matched } => Reading {
                sequence: SequenceState::Within { word, matched },
                ..self
            },
        }
    }

    /// The state after the character `c`, or `None` where `c` is rejected.
    pub open spec fn step(self, c: char) -> Option<Reading> {
        match decide_spec(self.sequence, c) {
            Some(action) => Some(self.apply(action)),
            None => None,
        }
    }

    /// The state after the characters of `text`, read from the left, or
    /// `None` where one of them is rejected.
    pub open spec fn run(self, text: Seq<char>) -> Option<Reading>
        decreases text.len(),
    {
        if text.len() == 0 {
            Some(self)
        } else {
            match self.step(text[0]) {
                Some(next) => next.run(text.drop_first()),
                None => None,
            }
        }
    }

    /// The number read when the text ends in this state: the block in
    /// progress and the pending digit count as units. A compound word left
    /// unfinished counts for nothing, and is no error.
    pub open spec fn finish(self) -> nat {
        self.total + self.block + self.digit
    }
}

/// The number that the kanji numeral `text` denotes, or `None` where `text` is
/// no numeral. The empty text denotes zero.
pub open spec fn kanji_value(text: Seq<char>) -> Option<nat> {
    match Reading::initial().run(text) {
        Some(end) => Some(end.finish()),
        None => None,
    }
}

/// Decides what the character `c` does when the tracker is in state
/// `sequence`.
pub fn decide(sequence: SequenceState, c: char) -> (action: Option<Action>)
    ensures
        action == decide_spec(sequence, c),
        action matches Some(a) ==> a.wf(),
{
    match classify(c) {
        None => None,
        Some(symbol) => match sequence {
            SequenceState::Idle => match symbol {
                Symbol::Digit(d) => Some(Action::PushDigit(d)),
                Symbol::Multiplier(f) => Some(Action::Multiply(f)),
                Symbol::Power(e) => Some(Action::Flush(e)),
                Symbol::Compound { word, position } => {
                    if position == 0 {
                        Some(Action::Advance { word, matched: 1 })
                    } else {
                        None
                    }
                },
            },
            SequenceState::Within { word, matched } => match symbol {
                Symbol::Compound { word: found, position } => {
                    if found == word && position == matched {
                        if matched + 1 == word.len() {
                            Some(Action::Flush(word.exponent()))
                        } else {
                            Some(Action::Advance { word, matched: matched + 1 })
                        }
                    } else {
                        None
                    }
                },
                _ => None,
            },
        },
    }
}

} // verus!
