//! A library for working with Roman numerals: converting between unsigned
//! integers, sequences of Roman digits, and their textual representations.
//!
//! The conversion pair at the core is proved correct: encoding an integer by
//! greedy subtractive expansion and decoding a digit string by single-pass
//! accumulation are mutual inverses, for the validated range 1..=3999 as well
//! as for the permissive unchecked range.

pub mod digit;
pub mod encoding;
pub mod errors;
pub mod numeral;
pub mod roman;

pub use crate::digit::Digit;
pub use crate::errors::Error;
pub use crate::numeral::Numeral;
pub use crate::roman::Roman;
