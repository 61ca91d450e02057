//! The one way in which reading a numeral fails.

use vstd::prelude::*;

verus! {

/// The text is not a kanji numeral: it holds a character outside the numeral
/// alphabet, or a character of a multi-character scale word out of place.
#[derive(Debug, Clone, Copy, PartialEq, Eq)]
pub struct KanjiNumberParseError;

impl KanjiNumberParseError {
    /// The text that describes this error to a person.
    pub open spec fn message_text() -> Seq<char> {
        "A kanji number parse error occured"@
    }

    /// Describes the error in words.
    pub fn message(&self) -> (text: String)
        ensures
            text@ == Self::message_text(),
    {
        "A kanji number parse error occured".to_owned()
    }
}

} // verus!
