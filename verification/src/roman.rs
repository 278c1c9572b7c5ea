use vstd::prelude::*;

use core::cmp::Ordering;

use vstd::std_specs::cmp::PartialOrdSpec;
use vstd::string::StrSliceExecFns;
use vstd::string::StringExecFns;

use crate::digit::{char_digit, is_roman_char, lower_char, upper_char, Digit};
use crate::encoding::{
    decode_from, decode_spec, digits_of, encode_spec, lower_chars, upper_chars, valid_digit_chars,
};
use crate::errors::Error;
use crate::numeral::{numerals_of, Numeral};

verus! {

/// The largest number of characters `Roman::from_str` accepts.
///
/// A digit string of `k` characters never decodes to more than `1000 * k`
/// (a run of `M`s reaches that bound), so strings up to this length — the
/// largest `k` with `1000 * k <= u32::MAX` — are exactly the ones whose
/// 32-bit accumulation cannot overflow.
pub const MAX_DECODE_CHARS: usize = 4294967;

/// A Roman number.
///
/// Stores the value internally as a `u32`; the digit sequence is derived
/// from it on demand, never stored, so the two cannot drift apart.
/// Equality and ordering go by the wrapped integer alone.
#[derive(Debug, Clone, Copy, Eq, PartialEq, Structural, Ord)]
pub struct Roman(u32);

impl View for Roman {
    type V = nat;

    closed spec fn view(&self) -> nat {
        self.0 as nat
    }
}

impl Roman {
    /// Creates a Roman numeral from an integer, with range checking:
    /// the value must be at least 1 and at most 3999.
    ///
    /// Any other value is rejected with `Error::OutOfRange` carrying it.
    pub fn from(val: u32) -> (r: Result<Roman, Error>)
        ensures
            match r {
                Ok(rom) => 1 <= val <= 3999 && rom@ == val as nat,
                Err(e) => (val == 0 || val > 3999) && e == Error::OutOfRange(val),
            },
    {
        if val == 0 || val > 3999 {
            return Err(Error::OutOfRange(val));
        }
        Ok(Roman(val))
    }

    /// Creates a Roman numeral from an integer without any range checking.
    ///
    /// Zero and values above 3999 are permitted; they encode to well-defined
    /// but non-classical digit sequences (empty, or with repeated `M`s).
    pub fn from_unchecked(val: u32) -> (r: Roman)
        ensures
            r@ == val as nat,
    {
        Roman(val)
    }

    /// The integer value of this Roman numeral.
    pub fn magnitude(&self) -> (n: u32)
        ensures
            n as nat == self@,
    {
        self.0
    }

    /// The sequence of Roman digits representing this numeral, produced by
    /// greedy subtractive expansion over the thirteen canonical
    /// denominations, largest first.
    pub fn to_digits(self) -> (digits: Vec<Digit>)
        ensures
            digits@ == encode_spec(self@),
    {
        let mut num: u32 = self.0;
        let mut acc: Vec<Digit> = Vec::new();
        proof {
            assert(acc@ + encode_spec(num as nat) =~= encode_spec(self@));
        }
        while num > 0
            invariant
                acc@ + encode_spec(num as nat) == encode_spec(self@),
            decreases num,
        {
            if num >= 1000 {
                proof {
                    assert(acc@.push(Digit::M) + encode_spec((num - 1000) as nat) =~= acc@
                        + encode_spec(num as nat));
                }
                acc.push(Digit::M);
                num = num - 1000;
            } else if num >= 900 {
                proof {
                    assert(acc@.push(Digit::C).push(Digit::M) + encode_spec((num - 900) as nat)
                        =~= acc@ + encode_spec(num as nat));
                }
                acc.push(Digit::C);
                acc.push(Digit::M);
                num = num - 900;
            } else if num >= 500 {
                proof {
                    assert(acc@.push(Digit::D) + encode_spec((num - 500) as nat) =~= acc@
                        + encode_spec(num as nat));
                }
                acc.push(Digit::D);
                num = num - 500;
            } else if num >= 400 {
                proof {
                    assert(acc@.push(Digit::C).push(Digit::D) + encode_spec((num - 400) as nat)
                        =~= acc@ + encode_spec(num as nat));
                }
                acc.push(Digit::C);
                acc.push(Digit::D);
                num = num - 400;
            } else if num >= 100 {
                proof {
                    assert(acc@.push(Digit::C) + encode_spec((num - 100) as nat) =~= acc@
                        + encode_spec(num as nat));
                }
                acc.push(Digit::C);
                num = num - 100;
            } else if num >= 90 {
                proof {
                    assert(acc@.push(Digit::X).push(Digit::C) + encode_spec((num - 90) as nat)
                        =~= acc@ + encode_spec(num as nat));
                }
                acc.push(Digit::X);
                acc.push(Digit::C);
                num = num - 90;
            } else if num >= 50 {
                proof {
                    assert(acc@.push(Digit::L) + encode_spec((num - 50) as nat) =~= acc@
                        + encode_spec(num as nat));
                }
                acc.push(Digit::L);
                num = num - 50;
            } else if num >= 40 {
                proof {
                    assert(acc@.push(Digit::X).push(Digit::L) + encode_spec((num - 40) as nat)
                        =~= acc@ + encode_spec(num as nat));
                }
                acc.push(Digit::X);
                acc.push(Digit::L);
                num = num - 40;
            } else if num >= 10 {
                proof {
                    assert(acc@.push(Digit::X) + encode_spec((num - 10) as nat) =~= acc@
                        + encode_spec(num as nat));
                }
                acc.push(Digit::X);
                num = num - 10;
            } else if num >= 9 {
                proof {
                    assert(acc@.push(Digit::I).push(Digit::X) + encode_spec((num - 9) as nat)
                        =~= acc@ + encode_spec(num as nat));
                }
                acc.push(Digit::I);
                acc.push(Digit::X);
                num = num - 9;
            } else if num >= 5 {
                proof {
                    assert(acc@.push(Digit::V) + encode_spec((num - 5) as nat) =~= acc@
                        + encode_spec(num as nat));
                }
                acc.push(Digit::V);
                num = num - 5;
            } else if num >= 4 {
                proof {
                    assert(acc@.push(Digit::I).push(Digit::V) + encode_spec((num - 4) as nat)
                        =~= acc@ + encode_spec(num as nat));
                }
                acc.push(Digit::I);
                acc.push(Digit::V);
                num = num - 4;
            } else {
                proof {
                    assert(acc@.push(Digit::I) + encode_spec((num - 1) as nat) =~= acc@
                        + encode_spec(num as nat));
                }
                acc.push(Digit::I);
                num = num - 1;
            }
        }
        proof {
            assert(acc@ + encode_spec(0) =~= acc@);
        }
        acc
    }

    /// The sequence of Roman numeral symbols representing this value; the
    /// same symbols as `to_digits`, under the historical name.
    pub fn to_numerals(self) -> (ns: Vec<Numeral>)
        ensures
            ns@ == numerals_of(encode_spec(self@)),
    {
        let digits = self.to_digits();
        let mut ns: Vec<Numeral> = Vec::new();
        let mut i: usize = 0;
        proof {
            assert(ns@ =~= numerals_of(digits@.take(0)));
        }
        while i < digits.len()
            invariant
                i <= digits@.len(),
                digits@ == encode_spec(self@),
                ns@ == numerals_of(digits@.take(i as int)),
            decreases digits@.len() - i,
        {
            ns.push(Numeral::from(digits[i]));
            proof {
                assert(numerals_of(digits@.take(i as int + 1)) =~= numerals_of(
                    digits@.take(i as int),
                ).push(crate::numeral::numeral_of_digit(digits@[i as int])));
            }
            i = i + 1;
        }
        proof {
            assert(digits@.take(digits@.len() as int) =~= digits@);
        }
        ns
    }

    /// The uppercase string representation of this Roman numeral.
    pub fn to_uppercase(self) -> (s: String)
        ensures
            s@ == upper_chars(encode_spec(self@)),
    {
        let digits = self.to_digits();
        let mut s = String::new();
        let mut i: usize = 0;
        proof {
            assert(s@ =~= upper_chars(digits@.take(0)));
        }
        while i < digits.len()
            invariant
                i <= digits@.len(),
                digits@ == encode_spec(self@),
                s@ == upper_chars(digits@.take(i as int)),
            decreases digits@.len() - i,
        {
            s.append(upper_str(digits[i]));
            proof {
                assert(upper_chars(digits@.take(i as int + 1)) =~= upper_chars(
                    digits@.take(i as int),
                ) + seq![upper_char(digits@[i as int])]);
            }
            i = i + 1;
        }
        proof {
            assert(digits@.take(digits@.len() as int) =~= digits@);
        }
        s
    }

    /// The lowercase string representation of this Roman numeral.
    pub fn to_lowercase(self) -> (s: String)
        ensures
            s@ == lower_chars(encode_spec(self@)),
    {
        let digits = self.to_digits();
        let mut s = String::new();
        let mut i: usize = 0;
        proof {
            assert(s@ =~= lower_chars(digits@.take(0)));
        }
        while i < digits.len()
            invariant
                i <= digits@.len(),
                digits@ == encode_spec(self@),
                s@ == lower_chars(digits@.take(i as int)),
            decreases digits@.len() - i,
        {
            s.append(lower_str(digits[i]));
            proof {
                assert(lower_chars(digits@.take(i as int + 1)) =~= lower_chars(
                    digits@.take(i as int),
                ) + seq![lower_char(digits@[i as int])]);
            }
            i = i + 1;
        }
        proof {
            assert(digits@.take(digits@.len() as int) =~= digits@);
        }
        s
    }

    /// The standard (uppercase) string representation of this Roman numeral.
    pub fn to_string(self) -> (s: String)
        ensures
            s@ == upper_chars(encode_spec(self@)),
    {
        self.to_uppercase()
    }

    /// Creates a Roman numeral from a string of Roman digit characters, in
    /// either case, by a single forward pass with one unit of look-behind.
    ///
    /// Decoding is permissive: any digit string is accepted, whether or not
    /// it is a canonical numeral ("IIII" decodes to 4, "IM" to 999), and the
    /// empty string decodes to 0. The first character that names no Roman
    /// digit aborts decoding with `Error::InvalidDigit` carrying it.
    ///
    /// The length bound keeps every intermediate sum of the 32-bit
    /// accumulator in range; see `MAX_DECODE_CHARS`.
    pub fn from_str(s: &str) -> (r: Result<Roman, Error>)
        requires
            s@.len() <= MAX_DECODE_CHARS as nat,
        ensures
            match r {
                Ok(rom) => valid_digit_chars(s@) && rom@ == decode_spec(digits_of(s@)),
                Err(e) => exists|k: int|
                    0 <= k < s@.len() && !is_roman_char(#[trigger] s@[k]) && (forall|j: int|
                        0 <= j < k ==> is_roman_char(#[trigger] s@[j])) && e == Error::InvalidDigit(
                        s@[k],
                    ),
            },
    {
        let n = s.unicode_len();
        let mut total: u32 = 0;
        let mut pending: Option<u32> = None;
        let mut i: usize = 0;
        proof {
            assert(digits_of(s@).skip(0) =~= digits_of(s@));
        }
        while i < n
            invariant
                i <= n,
                n as nat == s@.len(),
                n <= MAX_DECODE_CHARS,
                forall|j: int| 0 <= j < i ==> is_roman_char(#[trigger] s@[j]),
                total as int + pending_total(pending) <= 1000 * (i as int),
                match pending {
                    Some(p) => 1 <= p <= 1000,
                    None => true,
                },
                decode_from(digits_of(s@).skip(i as int), total as int, pending_int(pending))
                    == decode_spec(digits_of(s@)),
            decreases n - i,
        {
            let c = s.get_char(i);
            let d = match Digit::from_char(c) {
                Ok(d) => d,
                Err(e) => {
                    assert(!is_roman_char(s@[i as int]));
                    return Err(e);
                },
            };
            let cur = d.magnitude();
            proof {
                assert(digits_of(s@)[i as int] == char_digit(s@[i as int]));
                assert(digits_of(s@).skip(i as int)[0] == digits_of(s@)[i as int]);
                assert(digits_of(s@).skip(i as int).drop_first() =~= digits_of(s@).skip(
                    i as int + 1,
                ));
            }
            match pending {
                None => {
                    pending = Some(cur);
                },
                Some(p) => {
                    if cur == p {
                        total = total + p;
                    } else if cur < p {
                        total = total + p;
                        pending = Some(cur);
                    } else {
                        total = total + (cur - p);
                        pending = None;
                    }
                },
            }
            i = i + 1;
        }
        proof {
            assert(digits_of(s@).skip(n as int) =~= Seq::<Digit>::empty());
        }
        let val: u32 = match pending {
            Some(p) => total + p,
            None => total,
        };
        Ok(Roman(val))
    }
}

/// The running value of an optional pending magnitude, as a spec integer.
spec fn pending_int(pending: Option<u32>) -> Option<int> {
    match pending {
        Some(p) => Some(p as int),
        None => None,
    }
}

/// What an optional pending magnitude contributes to the total.
spec fn pending_total(pending: Option<u32>) -> int {
    match pending {
        Some(p) => p as int,
        None => 0,
    }
}

/// The one-character uppercase string of a Roman digit.
fn upper_str(d: Digit) -> (s: &'static str)
    ensures
        s@ == seq![upper_char(d)],
{
    match d {
        Digit::I => {
            proof {
                reveal_strlit("I");
                assert("I"@ =~= seq!['I']);
            }
            "I"
        },
        Digit::V => {
            proof {
                reveal_strlit("V");
                assert("V"@ =~= seq!['V']);
            }
            "V"
        },
        Digit::X => {
            proof {
                reveal_strlit("X");
                assert("X"@ =~= seq!['X']);
            }
            "X"
        },
        Digit::L => {
            proof {
                reveal_strlit("L");
                assert("L"@ =~= seq!['L']);
            }
            "L"
        },
        Digit::C => {
            proof {
                reveal_strlit("C");
                assert("C"@ =~= seq!['C']);
            }
            "C"
        },
        Digit::D => {
            proof {
                reveal_strlit("D");
                assert("D"@ =~= seq!['D']);
            }
            "D"
        },
        Digit::M => {
            proof {
                reveal_strlit("M");
                assert("M"@ =~= seq!['M']);
            }
            "M"
        },
    }
}

/// The one-character lowercase string of a Roman digit.
fn lower_str(d: Digit) -> (s: &'static str)
    ensures
        s@ == seq![lower_char(d)],
{
    match d {
        Digit::I => {
            proof {
                reveal_strlit("i");
                assert("i"@ =~= seq!['i']);
            }
            "i"
        },
        Digit::V => {
            proof {
                reveal_strlit("v");
                assert("v"@ =~= seq!['v']);
            }
            "v"
        },
        Digit::X => {
            proof {
                reveal_strlit("x");
                assert("x"@ =~= seq!['x']);
            }
            "x"
        },
        Digit::L => {
            proof {
                reveal_strlit("l");
                assert("l"@ =~= seq!['l']);
            }
            "l"
        },
        Digit::C => {
            proof {
                reveal_strlit("c");
                assert("c"@ =~= seq!['c']);
            }
            "c"
        },
        Digit::D => {
            proof {
                reveal_strlit("d");
                assert("d"@ =~= seq!['d']);
            }
            "d"
        },
        Digit::M => {
            proof {
                reveal_strlit("m");
                assert("m"@ =~= seq!['m']);
            }
            "m"
        },
    }
}

impl PartialOrd for Roman {
    /// Orders Roman numerals by their integer value alone.
    fn partial_cmp(&self, other: &Self) -> (r: Option<Ordering>) {
        if self.0 < other.0 {
            Some(Ordering::Less)
        } else if self.0 == other.0 {
            Some(Ordering::Equal)
        } else {
            Some(Ordering::Greater)
        }
    }
}

impl vstd::std_specs::cmp::PartialOrdSpecImpl for Roman {
    open spec fn obeys_partial_cmp_spec() -> bool {
        true
    }

    open spec fn partial_cmp_spec(&self, other: &Self) -> Option<Ordering> {
        if self@ < other@ {
            Some(Ordering::Less)
        } else if self@ == other@ {
            Some(Ordering::Equal)
        } else {
            Some(Ordering::Greater)
        }
    }
}

/// The ordering law: equality and comparison of Roman numerals go by the
/// wrapped integer value alone, never by any textual form.
pub proof fn lemma_order_by_magnitude(a: Roman, b: Roman)
    ensures
        (a == b) <==> a@ == b@,
        a.partial_cmp_spec(&b) == Some(Ordering::Less) <==> a@ < b@,
        a.partial_cmp_spec(&b) == Some(Ordering::Equal) <==> a@ == b@,
        a.partial_cmp_spec(&b) == Some(Ordering::Greater) <==> a@ > b@,
{
}

} // verus!
