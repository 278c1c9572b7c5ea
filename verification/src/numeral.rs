use vstd::prelude::*;

use crate::digit::Digit;
use crate::errors::Error;

verus! {

/// One of the seven canonical Roman numeral symbols.
///
/// `Numeral` is the historical name of [`Digit`] and offers the same
/// operations; it is kept so that code written against either name works.
#[derive(Clone, Copy, Debug, PartialEq, Eq, Structural)]
pub enum Numeral {
    I,
    V,
    X,
    L,
    C,
    D,
    M,
}

/// The integer magnitude of a single Roman numeral symbol.
pub open spec fn numeral_value(n: Numeral) -> u32 {
    match n {
        Numeral::I => 1,
        Numeral::V => 5,
        Numeral::X => 10,
        Numeral::L => 50,
        Numeral::C => 100,
        Numeral::D => 500,
        Numeral::M => 1000,
    }
}

/// The numeral whose magnitude is `n`; meaningful only when
/// `crate::digit::is_digit_value(n)`.
pub open spec fn numeral_of_value(n: u32) -> Numeral {
    if n == 1 {
        Numeral::I
    } else if n == 5 {
        Numeral::V
    } else if n == 10 {
        Numeral::X
    } else if n == 50 {
        Numeral::L
    } else if n == 100 {
        Numeral::C
    } else if n == 500 {
        Numeral::D
    } else {
        Numeral::M
    }
}

/// The numeral named by `c`; meaningful only when
/// `crate::digit::is_roman_char(c)`.
pub open spec fn char_numeral(c: char) -> Numeral {
    numeral_of_digit(crate::digit::char_digit(c))
}

/// The numeral standing for the same symbol as a digit.
pub open spec fn numeral_of_digit(d: Digit) -> Numeral {
    match d {
        Digit::I => Numeral::I,
        Digit::V => Numeral::V,
        Digit::X => Numeral::X,
        Digit::L => Numeral::L,
        Digit::C => Numeral::C,
        Digit::D => Numeral::D,
        Digit::M => Numeral::M,
    }
}

/// The numerals standing for the same symbols as a sequence of digits.
pub open spec fn numerals_of(ds: Seq<Digit>) -> Seq<Numeral> {
    ds.map_values(|d: Digit| numeral_of_digit(d))
}

impl Numeral {
    /// Converts an integer magnitude into a single Roman numeral symbol.
    ///
    /// Succeeds exactly on the seven canonical magnitudes
    /// {1, 5, 10, 50, 100, 500, 1000}; any other value is rejected with
    /// `Error::InvalidNumber` carrying the offending value.
    pub fn from_int(num: u32) -> (r: Result<Numeral, Error>)
        ensures
            match r {
                Ok(n) => crate::digit::is_digit_value(num) && n == numeral_of_value(num),
                Err(e) => !crate::digit::is_digit_value(num) && e == Error::InvalidNumber(num),
            },
    {
        match num {
            1 => Ok(Numeral::I),
            5 => Ok(Numeral::V),
            10 => Ok(Numeral::X),
            50 => Ok(Numeral::L),
            100 => Ok(Numeral::C),
            500 => Ok(Numeral::D),
            1000 => Ok(Numeral::M),
            _ => Err(Error::InvalidNumber(num)),
        }
    }

    /// Converts a character into a single Roman numeral symbol,
    /// case-insensitively.
    ///
    /// Any character outside the fourteen recognized ones is rejected with
    /// `Error::InvalidDigit` carrying the offending character.
    pub fn from_char(c: char) -> (r: Result<Numeral, Error>)
        ensures
            match r {
                Ok(n) => crate::digit::is_roman_char(c) && n == char_numeral(c),
                Err(e) => !crate::digit::is_roman_char(c) && e == Error::InvalidDigit(c),
            },
    {
        match c {
            'I' | 'i' => Ok(Numeral::I),
            'V' | 'v' => Ok(Numeral::V),
            'X' | 'x' => Ok(Numeral::X),
            'L' | 'l' => Ok(Numeral::L),
            'C' | 'c' => Ok(Numeral::C),
            'D' | 'd' => Ok(Numeral::D),
            'M' | 'm' => Ok(Numeral::M),
            _ => Err(Error::InvalidDigit(c)),
        }
    }

    /// The lowercase character of this numeral; a total function.
    pub fn to_lowercase(&self) -> (c: char)
        ensures
            c == crate::digit::lower_char(self.to_digit_spec()),
    {
        match self {
            Numeral::I => 'i',
            Numeral::V => 'v',
            Numeral::X => 'x',
            Numeral::L => 'l',
            Numeral::C => 'c',
            Numeral::D => 'd',
            Numeral::M => 'm',
        }
    }

    /// The uppercase character of this numeral; a total function.
    pub fn to_uppercase(&self) -> (c: char)
        ensures
            c == crate::digit::upper_char(self.to_digit_spec()),
    {
        match self {
            Numeral::I => 'I',
            Numeral::V => 'V',
            Numeral::X => 'X',
            Numeral::L => 'L',
            Numeral::C => 'C',
            Numeral::D => 'D',
            Numeral::M => 'M',
        }
    }

    /// The integer magnitude of this numeral; a total function.
    pub fn magnitude(self) -> (n: u32)
        ensures
            n == numeral_value(self),
    {
        match self {
            Numeral::I => 1,
            Numeral::V => 5,
            Numeral::X => 10,
            Numeral::L => 50,
            Numeral::C => 100,
            Numeral::D => 500,
            Numeral::M => 1000,
        }
    }

    /// The digit standing for the same symbol as this numeral.
    pub open spec fn to_digit_spec(self) -> Digit {
        match self {
            Numeral::I => Digit::I,
            Numeral::V => Digit::V,
            Numeral::X => Digit::X,
            Numeral::L => Digit::L,
            Numeral::C => Digit::C,
            Numeral::D => Digit::D,
            Numeral::M => Digit::M,
        }
    }
}

impl From<Digit> for Numeral {
    /// Converts a digit to the numeral standing for the same symbol.
    fn from(d: Digit) -> (n: Numeral) {
        match d {
            Digit::I => Numeral::I,
            Digit::V => Numeral::V,
            Digit::X => Numeral::X,
            Digit::L => Numeral::L,
            Digit::C => Numeral::C,
            Digit::D => Numeral::D,
            Digit::M => Numeral::M,
        }
    }
}

impl vstd::std_specs::convert::FromSpecImpl<Digit> for Numeral {
    open spec fn obeys_from_spec() -> bool {
        true
    }

    open spec fn from_spec(d: Digit) -> Numeral {
        numeral_of_digit(d)
    }
}

impl From<Numeral> for u32 {
    /// Converts a numeral to its integer magnitude.
    fn from(numeral: Numeral) -> (n: u32) {
        numeral.magnitude()
    }
}

impl vstd::std_specs::convert::FromSpecImpl<Numeral> for u32 {
    open spec fn obeys_from_spec() -> bool {
        true
    }

    open spec fn from_spec(n: Numeral) -> u32 {
        numeral_value(n)
    }
}

impl<'a> From<&'a Numeral> for char {
    /// Converts a numeral to its uppercase character.
    fn from(numeral: &'a Numeral) -> (c: char) {
        numeral.to_uppercase()
    }
}

impl<'a> vstd::std_specs::convert::FromSpecImpl<&'a Numeral> for char {
    open spec fn obeys_from_spec() -> bool {
        true
    }

    open spec fn from_spec(n: &'a Numeral) -> char {
        crate::digit::upper_char(n.to_digit_spec())
    }
}

} // verus!
