//! Reads Japanese kanji numerals, up to the scale word for ten to the
//! sixty-eighth, into exact unbounded naturals.
//!
//! The meaning of a numeral is a left-to-right scan over its characters,
//! stated once as a mathematical model in [`reading`], over the alphabet of
//! [`numeral`]; [`parse`] is proved to compute exactly that meaning. What
//! holds of the meaning is proved in [`laws`] (what is rejected) and in
//! [`places`] (what each digit contributes, and what replacing or exchanging
//! digits does). The total is a `num_bigint::BigUint`, whose arithmetic is
//! taken on trust in [`bignum`].

pub mod bignum;
pub mod error;
pub mod laws;
pub mod numeral;
pub mod parser;
pub mod places;
pub mod reading;

pub use error::KanjiNumberParseError;
pub use parser::parse;
