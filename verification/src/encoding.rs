use vstd::prelude::*;

use crate::digit::{
    char_digit, digit_value, is_roman_char, is_upper_roman_char, lower_char, upper_char, Digit,
};

verus! {

/// The greedy subtractive-notation encoding of `n` as a sequence of Roman
/// digits: the thirteen canonical denominations are taken in descending
/// order, each as often as it fits into the remainder.
///
/// Zero encodes to the empty sequence; values of 4000 and above repeat `M`.
pub open spec fn encode_spec(n: nat) -> Seq<Digit>
    decreases n,
{
    if n >= 1000 {
        seq![Digit::M] + encode_spec((n - 1000) as nat)
    } else if n >= 900 {
        seq![Digit::C, Digit::M] + encode_spec((n - 900) as nat)
    } else if n >= 500 {
        seq![Digit::D] + encode_spec((n - 500) as nat)
    } else if n >= 400 {
        seq![Digit::C, Digit::D] + encode_spec((n - 400) as nat)
    } else if n >= 100 {
        seq![Digit::C] + encode_spec((n - 100) as nat)
    } else if n >= 90 {
        seq![Digit::X, Digit::C] + encode_spec((n - 90) as nat)
    } else if n >= 50 {
        seq![Digit::L] + encode_spec((n - 50) as nat)
    } else if n >= 40 {
        seq![Digit::X, Digit::L] + encode_spec((n - 40) as nat)
    } else if n >= 10 {
        seq![Digit::X] + encode_spec((n - 10) as nat)
    } else if n >= 9 {
        seq![Digit::I, Digit::X] + encode_spec((n - 9) as nat)
    } else if n >= 5 {
        seq![Digit::V] + encode_spec((n - 5) as nat)
    } else if n >= 4 {
        seq![Digit::I, Digit::V] + encode_spec((n - 4) as nat)
    } else if n >= 1 {
        seq![Digit::I] + encode_spec((n - 1) as nat)
    } else {
        Seq::empty()
    }
}

/// One forward pass of the decoding accumulator over `s`, starting from a
/// running `total` and an optional `pending` magnitude (the most recently
/// seen digit not yet committed to the total).
///
/// A digit equal to the pending one commits the pending magnitude; a smaller
/// digit commits the pending magnitude and becomes pending itself; a larger
/// digit forms a subtractive pair with the pending one, committing their
/// difference. Whatever is pending after the last digit is committed.
pub open spec fn decode_from(s: Seq<Digit>, total: int, pending: Option<int>) -> int
    decreases s.len(),
{
    if s.len() == 0 {
        total + (match pending {
            Some(p) => p,
            None => 0,
        })
    } else {
        let cur = digit_value(s[0]) as int;
        match pending {
            None => decode_from(s.drop_first(), total, Some(cur)),
            Some(p) => if cur == p {
                decode_from(s.drop_first(), total + p, Some(p))
            } else if cur < p {
                decode_from(s.drop_first(), total + p, Some(cur))
            } else {
                decode_from(s.drop_first(), total + (cur - p), None)
            },
        }
    }
}

/// The integer value of a sequence of Roman digits under the permissive
/// single-pass decoding. The empty sequence decodes to zero.
pub open spec fn decode_spec(s: Seq<Digit>) -> int {
    decode_from(s, 0, None)
}

/// Whether every character of `s` names a Roman digit (in either case).
pub open spec fn valid_digit_chars(s: Seq<char>) -> bool {
    forall|i: int| 0 <= i < s.len() ==> is_roman_char(#[trigger] s[i])
}

/// The digits named by the characters of `s`; meaningful only when
/// `valid_digit_chars(s)`.
pub open spec fn digits_of(s: Seq<char>) -> Seq<Digit> {
    s.map_values(|c: char| char_digit(c))
}

/// The uppercase characters of a sequence of Roman digits.
pub open spec fn upper_chars(s: Seq<Digit>) -> Seq<char> {
    s.map_values(|d: Digit| upper_char(d))
}

/// The lowercase characters of a sequence of Roman digits.
pub open spec fn lower_chars(s: Seq<Digit>) -> Seq<char> {
    s.map_values(|d: Digit| lower_char(d))
}

/// The encoding of a positive value is never empty, and its first digit is
/// bounded: by 1000 always, and more tightly for smaller values. These
/// bounds are what lets a pending magnitude commit cleanly before the
/// encoding of a remainder is decoded.
proof fn lemma_encode_first(n: nat)
    requires
        n >= 1,
    ensures
        encode_spec(n).len() >= 1,
        digit_value(encode_spec(n)[0]) <= 1000,
        n < 400 ==> digit_value(encode_spec(n)[0]) <= 100,
        n < 40 ==> digit_value(encode_spec(n)[0]) <= 10,
        n < 4 ==> digit_value(encode_spec(n)[0]) <= 1,
{
}

/// Starting the accumulator on the encoding of `n` with a pending magnitude
/// `p` at least as large as the leading digit commits `p` at once: the
/// result is as if `p` had already been added to the total.
proof fn lemma_pending_commits(n: nat, total: int, p: int)
    requires
        n >= 1 ==> digit_value(encode_spec(n)[0]) <= p,
    ensures
        decode_from(encode_spec(n), total, Some(p)) == decode_from(encode_spec(n), total + p, None),
{
    if n >= 1 {
        lemma_encode_first(n);
        let s = encode_spec(n);
        let cur = digit_value(s[0]) as int;
        if cur == p {
            assert(decode_from(s, total, Some(p)) == decode_from(s.drop_first(), total + p, Some(cur)));
        } else {
            assert(cur < p);
            assert(decode_from(s, total, Some(p)) == decode_from(s.drop_first(), total + p, Some(cur)));
        }
        assert(decode_from(s, total + p, None) == decode_from(s.drop_first(), total + p, Some(cur)));
    }
}

/// Decoding the greedy encoding of `n`, starting from any running total and
/// no pending digit, adds exactly `n` to the total.
proof fn lemma_decode_encode_from(n: nat, total: int)
    ensures
        decode_from(encode_spec(n), total, None) == total + n,
    decreases n,
{
    let s = encode_spec(n);
    if n == 0 {
    } else if n >= 1000 {
        let r = (n - 1000) as nat;
        let rest = encode_spec(r);
        assert(s.drop_first() =~= rest);
        assert(decode_from(s, total, None) == decode_from(rest, total, Some(1000)));
        if r >= 1 {
            lemma_encode_first(r);
        }
        lemma_pending_commits(r, total, 1000);
        lemma_decode_encode_from(r, total + 1000);
    } else if n >= 900 {
        let r = (n - 900) as nat;
        let rest = encode_spec(r);
        assert(s.drop_first() =~= seq![Digit::M] + rest);
        assert((seq![Digit::M] + rest).drop_first() =~= rest);
        assert(decode_from(s, total, None) == decode_from(seq![Digit::M] + rest, total, Some(100)));
        assert(decode_from(seq![Digit::M] + rest, total, Some(100)) == decode_from(rest, total + 900, None));
        lemma_decode_encode_from(r, total + 900);
    } else if n >= 500 {
        let r = (n - 500) as nat;
        let rest = encode_spec(r);
        assert(s.drop_first() =~= rest);
        assert(decode_from(s, total, None) == decode_from(rest, total, Some(500)));
        if r >= 1 {
            lemma_encode_first(r);
        }
        lemma_pending_commits(r, total, 500);
        lemma_decode_encode_from(r, total + 500);
    } else if n >= 400 {
        let r = (n - 400) as nat;
        let rest = encode_spec(r);
        assert(s.drop_first() =~= seq![Digit::D] + rest);
        assert((seq![Digit::D] + rest).drop_first() =~= rest);
        assert(decode_from(s, total, None) == decode_from(seq![Digit::D] + rest, total, Some(100)));
        assert(decode_from(seq![Digit::D] + rest, total, Some(100)) == decode_from(rest, total + 400, None));
        lemma_decode_encode_from(r, total + 400);
    } else if n >= 100 {
        let r = (n - 100) as nat;
        let rest = encode_spec(r);
        assert(s.drop_first() =~= rest);
        assert(decode_from(s, total, None) == decode_from(rest, total, Some(100)));
        if r >= 1 {
            lemma_encode_first(r);
        }
        lemma_pending_commits(r, total, 100);
        lemma_decode_encode_from(r, total + 100);
    } else if n >= 90 {
        let r = (n - 90) as nat;
        let rest = encode_spec(r);
        assert(s.drop_first() =~= seq![Digit::C] + rest);
        assert((seq![Digit::C] + rest).drop_first() =~= rest);
        assert(decode_from(s, total, None) == decode_from(seq![Digit::C] + rest, total, Some(10)));
        assert(decode_from(seq![Digit::C] + rest, total, Some(10)) == decode_from(rest, total + 90, None));
        lemma_decode_encode_from(r, total + 90);
    } else if n >= 50 {
        let r = (n - 50) as nat;
        let rest = encode_spec(r);
        assert(s.drop_first() =~= rest);
        assert(decode_from(s, total, None) == decode_from(rest, total, Some(50)));
        if r >= 1 {
            lemma_encode_first(r);
        }
        lemma_pending_commits(r, total, 50);
        lemma_decode_encode_from(r, total + 50);
    } else if n >= 40 {
        let r = (n - 40) as nat;
        let rest = encode_spec(r);
        assert(s.drop_first() =~= seq![Digit::L] + rest);
        assert((seq![Digit::L] + rest).drop_first() =~= rest);
        assert(decode_from(s, total, None) == decode_from(seq![Digit::L] + rest, total, Some(10)));
        assert(decode_from(seq![Digit::L] + rest, total, Some(10)) == decode_from(rest, total + 40, None));
        lemma_decode_encode_from(r, total + 40);
    } else if n >= 10 {
        let r = (n - 10) as nat;
        let rest = encode_spec(r);
        assert(s.drop_first() =~= rest);
        assert(decode_from(s, total, None) == decode_from(rest, total, Some(10)));
        if r >= 1 {
            lemma_encode_first(r);
        }
        lemma_pending_commits(r, total, 10);
        lemma_decode_encode_from(r, total + 10);
    } else if n >= 9 {
        let r = (n - 9) as nat;
        let rest = encode_spec(r);
        assert(s.drop_first() =~= seq![Digit::X] + rest);
        assert((seq![Digit::X] + rest).drop_first() =~= rest);
        assert(decode_from(s, total, None) == decode_from(seq![Digit::X] + rest, total, Some(1)));
        assert(decode_from(seq![Digit::X] + rest, total, Some(1)) == decode_from(rest, total + 9, None));
        lemma_decode_encode_from(r, total + 9);
    } else if n >= 5 {
        let r = (n - 5) as nat;
        let rest = encode_spec(r);
        assert(s.drop_first() =~= rest);
        assert(decode_from(s, total, None) == decode_from(rest, total, Some(5)));
        if r >= 1 {
            lemma_encode_first(r);
        }
        lemma_pending_commits(r, total, 5);
        lemma_decode_encode_from(r, total + 5);
    } else if n >= 4 {
        let r = (n - 4) as nat;
        let rest = encode_spec(r);
        assert(s.drop_first() =~= seq![Digit::V] + rest);
        assert((seq![Digit::V] + rest).drop_first() =~= rest);
        assert(decode_from(s, total, None) == decode_from(seq![Digit::V] + rest, total, Some(1)));
        assert(decode_from(seq![Digit::V] + rest, total, Some(1)) == decode_from(rest, total + 4, None));
        lemma_decode_encode_from(r, total + 4);
    } else {
        let r = (n - 1) as nat;
        let rest = encode_spec(r);
        assert(s.drop_first() =~= rest);
        assert(decode_from(s, total, None) == decode_from(rest, total, Some(1)));
        if r >= 1 {
            lemma_encode_first(r);
        }
        lemma_pending_commits(r, total, 1);
        lemma_decode_encode_from(r, total + 1);
    }
}

/// The encoding of `n` never holds more than `n` digits: every denomination
/// contributes at most two symbols while consuming at least that much of the
/// remainder. This bounds the strings the encoder can hand to the decoder.
pub proof fn lemma_encode_len(n: nat)
    ensures
        encode_spec(n).len() <= n,
    decreases n,
{
    if n == 0 {
    } else if n >= 1000 {
        lemma_encode_len((n - 1000) as nat);
    } else if n >= 900 {
        lemma_encode_len((n - 900) as nat);
    } else if n >= 500 {
        lemma_encode_len((n - 500) as nat);
    } else if n >= 400 {
        lemma_encode_len((n - 400) as nat);
    } else if n >= 100 {
        lemma_encode_len((n - 100) as nat);
    } else if n >= 90 {
        lemma_encode_len((n - 90) as nat);
    } else if n >= 50 {
        lemma_encode_len((n - 50) as nat);
    } else if n >= 40 {
        lemma_encode_len((n - 40) as nat);
    } else if n >= 10 {
        lemma_encode_len((n - 10) as nat);
    } else if n >= 9 {
        lemma_encode_len((n - 9) as nat);
    } else if n >= 5 {
        lemma_encode_len((n - 5) as nat);
    } else if n >= 4 {
        lemma_encode_len((n - 4) as nat);
    } else {
        lemma_encode_len((n - 1) as nat);
    }
}

/// The uppercase characters of any digit sequence are uppercase Roman digit
/// characters themselves, and naming them back as digits recovers the
/// sequence exactly.
pub proof fn lemma_upper_chars_decode(ds: Seq<Digit>)
    ensures
        valid_digit_chars(upper_chars(ds)),
        forall|i: int|
            0 <= i < upper_chars(ds).len() ==> is_upper_roman_char(#[trigger] upper_chars(ds)[i]),
        digits_of(upper_chars(ds)) == ds,
{
    assert forall|i: int| 0 <= i < upper_chars(ds).len() implies is_roman_char(
        #[trigger] upper_chars(ds)[i],
    ) && is_upper_roman_char(upper_chars(ds)[i]) by {
        assert(upper_chars(ds)[i] == upper_char(ds[i]));
    }
    assert(digits_of(upper_chars(ds)) =~= ds);
}

/// The round-trip law: decoding the greedy encoding of any value — taken as
/// digits, or written out as Roman digit characters — yields that value
/// back, and the written-out form uses uppercase canonical symbols only.
pub proof fn lemma_round_trip(n: nat)
    ensures
        decode_spec(encode_spec(n)) == n,
        valid_digit_chars(upper_chars(encode_spec(n))),
        forall|i: int|
            0 <= i < upper_chars(encode_spec(n)).len() ==> is_upper_roman_char(
                #[trigger] upper_chars(encode_spec(n))[i],
            ),
        decode_spec(digits_of(upper_chars(encode_spec(n)))) == n,
{
    lemma_decode_encode_from(n, 0);
    lemma_upper_chars_decode(encode_spec(n));
}

/// The case-symmetry law: the lowercase rendering of a digit sequence is the
/// lowercase image, character by character, of its uppercase rendering, and
/// vice versa.
pub proof fn lemma_case_symmetry(ds: Seq<Digit>)
    ensures
        lower_chars(ds) == upper_chars(ds).map_values(|c: char| lower_roman_char(c)),
        upper_chars(ds) == lower_chars(ds).map_values(|c: char| upper_roman_char(c)),
{
    assert(lower_chars(ds) =~= upper_chars(ds).map_values(|c: char| lower_roman_char(c)));
    assert(upper_chars(ds) =~= lower_chars(ds).map_values(|c: char| upper_roman_char(c)));
}

/// The lowercase form of an uppercase Roman digit character; other
/// characters are left unchanged.
pub open spec fn lower_roman_char(c: char) -> char {
    if c == 'I' {
        'i'
    } else if c == 'V' {
        'v'
    } else if c == 'X' {
        'x'
    } else if c == 'L' {
        'l'
    } else if c == 'C' {
        'c'
    } else if c == 'D' {
        'd'
    } else if c == 'M' {
        'm'
    } else {
        c
    }
}

/// The uppercase form of a lowercase Roman digit character; other
/// characters are left unchanged.
pub open spec fn upper_roman_char(c: char) -> char {
    if c == 'i' {
        'I'
    } else if c == 'v' {
        'V'
    } else if c == 'x' {
        'X'
    } else if c == 'l' {
        'L'
    } else if c == 'c' {
        'C'
    } else if c == 'd' {
        'D'
    } else if c == 'm' {
        'M'
    } else {
        c
    }
}

} // verus!
