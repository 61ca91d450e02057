//! The numeral alphabet: which characters a kanji numeral may hold, and what
//! each of them stands for.
//!
//! The alphabet is stated as tables, each listing its characters in rising
//! order of value. [`classify`] looks a character up with a single `match`
//! and is proved to agree with the tables.

use vstd::prelude::*;

verus! {

/// A scale word written with several characters.
#[derive(Debug, Clone, Copy, PartialEq, Eq, Structural)]
pub enum CompoundWord {
    /// 恒河沙, ten to the 52nd.
    Gogasha,
    /// 阿僧祇, ten to the 56th.
    Asogi,
    /// 那由他, ten to the 60th.
    Nayuta,
    /// 不可思議, ten to the 64th.
    Fukashigi,
    /// 無量大数, ten to the 68th.
    Muryotaisu,
}

/// What one character of the alphabet stands for.
#[derive(Debug, Clone, Copy, PartialEq, Eq, Structural)]
pub enum Symbol {
    /// A digit, zero to nine.
    Digit(u8),
    /// A place within a block of four: the factor 10, 100 or 1000.
    Multiplier(u16),
    /// A one-character scale word: the exponent of its power of ten, a
    /// multiple of four from 4 to 48.
    Power(u8),
    /// The character at `position` (counted from zero) of a compound word.
    Compound { word: CompoundWord, position: u8 },
}

/// The digits, zero first.
pub open spec fn digit_chars() -> Seq<char> {
    seq!['零', '一', '二', '三', '四', '五', '六', '七', '八', '九']
}

/// The place characters: ten, hundred, thousand.
pub open spec fn multiplier_chars() -> Seq<char> {
    seq!['十', '百', '千']
}

/// The one-character scale words, from ten to the 4th up to ten to the 48th in
/// steps of four.
pub open spec fn power_chars() -> Seq<char> {
    seq!['万', '億', '兆', '京', '垓', '𥝱', '穣', '溝', '澗', '正', '載', '極']
}

impl CompoundWord {
    /// The characters of the word, in writing order.
    pub open spec fn chars(self) -> Seq<char> {
        match self {
            CompoundWord::Gogasha => seq!['恒', '河', '沙'],
            CompoundWord::Asogi => seq!['阿', '僧', '祇'],
            CompoundWord::Nayuta => seq!['那', '由', '他'],
            CompoundWord::Fukashigi => seq!['不', '可', '思', '議'],
            CompoundWord::Muryotaisu => seq!['無', '量', '大', '数'],
        }
    }

    /// The exponent of the power of ten that the word names.
    pub open spec fn exponent_spec(self) -> nat {
        match self {
            CompoundWord::Gogasha => 52,
            CompoundWord::Asogi => 56,
            CompoundWord::Nayuta => 60,
            CompoundWord::Fukashigi => 64,
            CompoundWord::Muryotaisu => 68,
        }
    }

    /// The number of characters in the word.
    pub open spec fn len_spec(self) -> nat {
        self.chars().len()
    }

    /// The exponent of the power of ten that the word names.
    pub fn exponent(self) -> (e: u8)
        ensures
            e == self.exponent_spec(),
    {
        match self {
            CompoundWord::Gogasha => 52,
            CompoundWord::Asogi => 56,
            CompoundWord::Nayuta => 60,
            CompoundWord::Fukashigi => 64,
            CompoundWord::Muryotaisu => 68,
        }
    }

    /// The number of characters in the word.
    pub fn len(self) -> (n: u8)
        ensures
            n == self.len_spec(),
            2 <= n <= 4,
    {
        match self {
            CompoundWord::Gogasha => 3,
            CompoundWord::Asogi => 3,
            CompoundWord::Nayuta => 3,
            CompoundWord::Fukashigi => 4,
            CompoundWord::Muryotaisu => 4,
        }
    }
}

/// Where `c` stands in `table`, if it stands there.
pub open spec fn position(table: Seq<char>, c: char) -> Option<int> {
    if table.contains(c) {
        Some(table.index_of(c))
    } else {
        None
    }
}

/// The compound word that `c` belongs to, and its place in that word.
pub open spec fn compound_position(c: char) -> Option<(CompoundWord, int)> {
    if let Some(i) = position(CompoundWord::Gogasha.chars(), c) {
        Some((CompoundWord::Gogasha, i))
    } else if let Some(i) = position(CompoundWord::Asogi.chars(), c) {
        Some((CompoundWord::Asogi, i))
    } else if let Some(i) = position(CompoundWord::Nayuta.chars(), c) {
        Some((CompoundWord::Nayuta, i))
    } else if let Some(i) = position(CompoundWord::Fukashigi.chars(), c) {
        Some((CompoundWord::Fukashigi, i))
    } else if let Some(i) = position(CompoundWord::Muryotaisu.chars(), c) {
        Some((CompoundWord::Muryotaisu, i))
    } else {
        None
    }
}

/// Ten to the power `i + 1`, for the three places of a block.
pub open spec fn place_factor(i: int) -> int {
    if i == 0 {
        10
    } else if i == 1 {
        100
    } else {
        1000
    }
}

/// What `c` stands for, or `None` where it is outside the alphabet.
///
/// The digit at index `d` of [`digit_chars`] is worth `d`; the place character
/// at index `i` of [`multiplier_chars`] is the factor ten to the `i + 1`; the
/// scale word at index `i` of [`power_chars`] has the exponent `4 * (i + 1)`.
pub open spec fn classify_spec(c: char) -> Option<Symbol> {
    if let Some(d) = position(digit_chars(), c) {
        Some(Symbol::Digit(d as u8))
    } else if let Some(i) = position(multiplier_chars(), c) {
        Some(Symbol::Multiplier(place_factor(i) as u16))
    } else if let Some(i) = position(power_chars(), c) {
        Some(Symbol::Power((4 * (i + 1)) as u8))
    } else if let Some((word, i)) = compound_position(c) {
        Some(Symbol::Compound { word, position: i as u8 })
    } else {
        None
    }
}

impl Symbol {
    /// The values a symbol can take: what [`classify_spec`] ever returns.
    pub open spec fn wf(self) -> bool {
        match self {
            Symbol::Digit(d) => d <= 9,
            Symbol::Multiplier(f) => f == 10 || f == 100 || f == 1000,
            Symbol::Power(e) => 4 <= e <= 48 && e % 4 == 0,
            Symbol::Compound { word, position } => position < word.len_spec(),
        }
    }
}

/// Looks up what `c` stands for in the numeral alphabet.
pub fn classify(c: char) -> (symbol: Option<Symbol>)
    ensures
        symbol == classify_spec(c),
        symbol matches Some(s) ==> s.wf(),
{
    match c {
        '零' => Some(Symbol::Digit(0)),
        '一' => Some(Symbol::Digit(1)),
        '二' => Some(Symbol::Digit(2)),
        '三' => Some(Symbol::Digit(3)),
        '四' => Some(Symbol::Digit(4)),
        '五' => Some(Symbol::Digit(5)),
        '六' => Some(Symbol::Digit(6)),
        '七' => Some(Symbol::Digit(7)),
        '八' => Some(Symbol::Digit(8)),
        '九' => Some(Symbol::Digit(9)),
        '十' => Some(Symbol::Multiplier(10)),
        '百' => Some(Symbol::Multiplier(100)),
        '千' => Some(Symbol::Multiplier(1000)),
        '万' => Some(Symbol::Power(4)),
        '億' => Some(Symbol::Power(8)),
        '兆' => Some(Symbol::Power(12)),
        '京' => Some(Symbol::Power(16)),
        '垓' => Some(Symbol::Power(20)),
        '𥝱' => Some(Symbol::Power(24)),
        '穣' => Some(Symbol::Power(28)),
        '溝' => Some(Symbol::Power(32)),
        '澗' => Some(Symbol::Power(36)),
        '正' => Some(Symbol::Power(40)),
        '載' => Some(Symbol::Power(44)),
        '極' => Some(Symbol::Power(48)),
        '恒' => Some(Symbol::Compound { word: CompoundWord::Gogasha, position: 0 }),
        '河' => Some(Symbol::Compound { word: CompoundWord::Gogasha, position: 1 }),
        '沙' => Some(Symbol::Compound { word: CompoundWord::Gogasha, position: 2 }),
        '阿' => Some(Symbol::Compound { word: CompoundWord::Asogi, position: 0 }),
        '僧' => Some(Symbol::Compound { word: CompoundWord::Asogi, position: 1 }),
        '祇' => Some(Symbol::Compound { word: CompoundWord::Asogi, position: 2 }),
        '那' => Some(Symbol::Compound { word: CompoundWord::Nayuta, position: 0 }),
        '由' => Some(Symbol::Compound { word: CompoundWord::Nayuta, position: 1 }),
        '他' => Some(Symbol::Compound { word: CompoundWord::Nayuta, position: 2 }),
        '不' => Some(Symbol::Compound { word: CompoundWord::Fukashigi, position: 0 }),
        '可' => Some(Symbol::Compound { word: CompoundWord::Fukashigi, position: 1 }),
        '思' => Some(Symbol::Compound { word: CompoundWord::Fukashigi, position: 2 }),
        '議' => Some(Symbol::Compound { word: CompoundWord::Fukashigi, position: 3 }),
        '無' => Some(Symbol::Compound { word: CompoundWord::Muryotaisu, position: 0 }),
        '量' => Some(Symbol::Compound { word: CompoundWord::Muryotaisu, position: 1 }),
        '大' => Some(Symbol::Compound { word: CompoundWord::Muryotaisu, position: 2 }),
        '数' => Some(Symbol::Compound { word: CompoundWord::Muryotaisu, position: 3 }),
        _ => None,
    }
}

} // verus!
