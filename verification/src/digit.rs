use vstd::prelude::*;

use crate::errors::Error;

verus! {

/// One of the seven canonical Roman numeral symbols.
///
/// Each symbol maps one-to-one to an integer magnitude; a `Digit` has no
/// identity beyond that magnitude and is immutable and trivially copyable.
#[derive(Clone, Copy, Debug, PartialEq, Eq, Structural)]
pub enum Digit {
    I,
    V,
    X,
    L,
    C,
    D,
    M,
}

/// The integer magnitude of a single Roman digit.
pub open spec fn digit_value(d: Digit) -> u32 {
    match d {
        Digit::I => 1,
        Digit::V => 5,
        Digit::X => 10,
        Digit::L => 50,
        Digit::C => 100,
        Digit::D => 500,
        Digit::M => 1000,
    }
}

/// Whether `n` is the magnitude of exactly one Roman digit.
pub open spec fn is_digit_value(n: u32) -> bool {
    n == 1 || n == 5 || n == 10 || n == 50 || n == 100 || n == 500 || n == 1000
}

/// The digit whose magnitude is `n`; meaningful only when `is_digit_value(n)`.
pub open spec fn digit_of_value(n: u32) -> Digit {
    if n == 1 {
        Digit::I
    } else if n == 5 {
        Digit::V
    } else if n == 10 {
        Digit::X
    } else if n == 50 {
        Digit::L
    } else if n == 100 {
        Digit::C
    } else if n == 500 {
        Digit::D
    } else {
        Digit::M
    }
}

/// Whether `c` names a Roman digit, in either case.
pub open spec fn is_roman_char(c: char) -> bool {
    ||| c == 'I'
    ||| c == 'i'
    ||| c == 'V'
    ||| c == 'v'
    ||| c == 'X'
    ||| c == 'x'
    ||| c == 'L'
    ||| c == 'l'
    ||| c == 'C'
    ||| c == 'c'
    ||| c == 'D'
    ||| c == 'd'
    ||| c == 'M'
    ||| c == 'm'
}

/// Whether `c` is one of the seven uppercase Roman digit characters.
pub open spec fn is_upper_roman_char(c: char) -> bool {
    ||| c == 'I'
    ||| c == 'V'
    ||| c == 'X'
    ||| c == 'L'
    ||| c == 'C'
    ||| c == 'D'
    ||| c == 'M'
}

/// The digit named by `c`; meaningful only when `is_roman_char(c)`.
pub open spec fn char_digit(c: char) -> Digit {
    if c == 'I' || c == 'i' {
        Digit::I
    } else if c == 'V' || c == 'v' {
        Digit::V
    } else if c == 'X' || c == 'x' {
        Digit::X
    } else if c == 'L' || c == 'l' {
        Digit::L
    } else if c == 'C' || c == 'c' {
        Digit::C
    } else if c == 'D' || c == 'd' {
        Digit::D
    } else {
        Digit::M
    }
}

/// The uppercase character of a Roman digit.
pub open spec fn upper_char(d: Digit) -> char {
    match d {
        Digit::I => 'I',
        Digit::V => 'V',
        Digit::X => 'X',
        Digit::L => 'L',
        Digit::C => 'C',
        Digit::D => 'D',
        Digit::M => 'M',
    }
}

/// The lowercase character of a Roman digit.
pub open spec fn lower_char(d: Digit) -> char {
    match d {
        Digit::I => 'i',
        Digit::V => 'v',
        Digit::X => 'x',
        Digit::L => 'l',
        Digit::C => 'c',
        Digit::D => 'd',
        Digit::M => 'm',
    }
}

impl Digit {
    /// Converts an integer magnitude into a single Roman digit.
    ///
    /// Succeeds exactly on the seven canonical magnitudes
    /// {1, 5, 10, 50, 100, 500, 1000}; any other value is rejected with
    /// `Error::InvalidNumber` carrying the offending value.
    pub fn from_int(num: u32) -> (r: Result<Digit, Error>)
        ensures
            match r {
                Ok(d) => is_digit_value(num) && d == digit_of_value(num),
                Err(e) => !is_digit_value(num) && e == Error::InvalidNumber(num),
            },
    {
        match num {
            1 => Ok(Digit::I),
            5 => Ok(Digit::V),
            10 => Ok(Digit::X),
            50 => Ok(Digit::L),
            100 => Ok(Digit::C),
            500 => Ok(Digit::D),
            1000 => Ok(Digit::M),
            _ => Err(Error::InvalidNumber(num)),
        }
    }

    /// Converts a character into a single Roman digit, case-insensitively.
    ///
    /// Any character outside the fourteen recognized ones is rejected with
    /// `Error::InvalidDigit` carrying the offending character.
    pub fn from_char(c: char) -> (r: Result<Digit, Error>)
        ensures
            match r {
                Ok(d) => is_roman_char(c) && d == char_digit(c),
                Err(e) => !is_roman_char(c) && e == Error::InvalidDigit(c),
            },
    {
        match c {
            'I' | 'i' => Ok(Digit::I),
            'V' | 'v' => Ok(Digit::V),
            'X' | 'x' => Ok(Digit::X),
            'L' | 'l' => Ok(Digit::L),
            'C' | 'c' => Ok(Digit::C),
            'D' | 'd' => Ok(Digit::D),
            'M' | 'm' => Ok(Digit::M),
            _ => Err(Error::InvalidDigit(c)),
        }
    }

    /// The lowercase character of this digit; a total function.
    pub fn to_lowercase(self) -> (c: char)
        ensures
            c == lower_char(self),
    {
        match self {
            Digit::I => 'i',
            Digit::V => 'v',
            Digit::X => 'x',
            Digit::L => 'l',
            Digit::C => 'c',
            Digit::D => 'd',
            Digit::M => 'm',
        }
    }

    /// The uppercase character of this digit; a total function.
    pub fn to_uppercase(self) -> (c: char)
        ensures
            c == upper_char(self),
    {
        match self {
            Digit::I => 'I',
            Digit::V => 'V',
            Digit::X => 'X',
            Digit::L => 'L',
            Digit::C => 'C',
            Digit::D => 'D',
            Digit::M => 'M',
        }
    }

    /// The integer magnitude of this digit; a total function.
    pub fn magnitude(self) -> (n: u32)
        ensures
            n == digit_value(self),
    {
        match self {
            Digit::I => 1,
            Digit::V => 5,
            Digit::X => 10,
            Digit::L => 50,
            Digit::C => 100,
            Digit::D => 500,
            Digit::M => 1000,
        }
    }
}

impl From<Digit> for u32 {
    /// Converts a digit to its integer magnitude.
    fn from(digit: Digit) -> (n: u32) {
        digit.magnitude()
    }
}

impl vstd::std_specs::convert::FromSpecImpl<Digit> for u32 {
    open spec fn obeys_from_spec() -> bool {
        true
    }

    open spec fn from_spec(d: Digit) -> u32 {
        digit_value(d)
    }
}

impl<'a> From<&'a Digit> for char {
    /// Converts a digit to its uppercase character.
    fn from(digit: &'a Digit) -> (c: char) {
        digit.to_uppercase()
    }
}

impl<'a> vstd::std_specs::convert::FromSpecImpl<&'a Digit> for char {
    open spec fn obeys_from_spec() -> bool {
        true
    }

    open spec fn from_spec(d: &'a Digit) -> char {
        upper_char(*d)
    }
}

} // verus!
