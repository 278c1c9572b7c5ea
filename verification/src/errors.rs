use vstd::prelude::*;

verus! {

/// Error for Roman numeral parsing and construction.
///
/// Every failure is reported to the immediate caller as one of these three
/// values; nothing is caught, retried, or logged internally.
#[derive(Clone, Copy, Debug, PartialEq, Eq, Structural)]
pub enum Error {
    /// A char that is not a valid Roman digit.
    InvalidDigit(char),
    /// A number that cannot be converted to a single Roman digit.
    InvalidNumber(u32),
    /// A value that is out of range for checked construction.
    OutOfRange(u32),
}

impl Error {
    /// A short description of the kind of failure.
    pub fn description(&self) -> (s: &'static str)
        ensures
            s@ == (match self {
                Error::InvalidDigit(_) => "Encountered an invalid digit"@,
                Error::InvalidNumber(_) => "Cannot convert number to single roman digit"@,
                Error::OutOfRange(_) => "Roman numeral is out of range"@,
            }),
    {
        match self {
            Error::InvalidDigit(_) => "Encountered an invalid digit",
            Error::InvalidNumber(_) => "Cannot convert number to single roman digit",
            Error::OutOfRange(_) => "Roman numeral is out of range",
        }
    }
}

} // verus!
