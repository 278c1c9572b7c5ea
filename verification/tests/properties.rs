use septem::{Digit, Error, Roman};

#[test]
fn round_trip_whole_checked_range() {
    for n in 1u32..=3999 {
        let s = Roman::from_unchecked(n).to_uppercase();
        assert!(s.chars().all(|c| "IVXLCDM".contains(c)));
        let r = Roman::from_str(&s).unwrap();
        assert_eq!(n, r.magnitude());
    }
}

#[test]
fn round_trip_unchecked_samples() {
    for n in [0u32, 4000, 4999, 5032, 10000, 123456] {
        let s = Roman::from_unchecked(n).to_uppercase();
        let r = Roman::from_str(&s).unwrap();
        assert_eq!(n, r.magnitude());
    }
}

#[test]
fn case_symmetry() {
    for n in [0u32, 1, 4, 9, 14, 40, 90, 400, 532, 900, 1994, 3999, 5032] {
        let v = Roman::from_unchecked(n);
        assert_eq!(v.to_lowercase(), v.to_uppercase().to_lowercase());
    }
}

#[test]
fn checked_boundaries() {
    match Roman::from(0u32) {
        Err(Error::OutOfRange(v)) => assert_eq!(0, v),
        _ => assert!(false),
    }
    match Roman::from(4000u32) {
        Err(Error::OutOfRange(v)) => assert_eq!(4000, v),
        _ => assert!(false),
    }
    let r = Roman::from(3999u32).unwrap();
    assert_eq!("MMMCMXCIX", r.to_uppercase());
    let r = Roman::from(1u32).unwrap();
    assert_eq!("I", r.to_uppercase());
}

#[test]
fn permissive_decode() {
    assert_eq!(4, Roman::from_str("IIII").unwrap().magnitude());
    assert_eq!(999, Roman::from_str("IM").unwrap().magnitude());
    assert_eq!(0, Roman::from_str("").unwrap().magnitude());
    assert_eq!(529, Roman::from_str("dxxix").unwrap().magnitude());
}

#[test]
fn concrete_vectors() {
    assert_eq!("DXXXII", Roman::from_unchecked(532).to_uppercase());
    assert_eq!("DXXIX", Roman::from_unchecked(529).to_uppercase());
    assert_eq!(7, Roman::from_str("VII").unwrap().magnitude());
    assert!(Roman::from_unchecked(0).to_digits().is_empty());
    assert_eq!("MMMMMXXXII", Roman::from_unchecked(5032).to_uppercase());
}

#[test]
fn encode_digit_sequence() {
    assert_eq!(
        vec![Digit::D, Digit::X, Digit::X, Digit::X, Digit::I, Digit::I],
        Roman::from_unchecked(532).to_digits()
    );
    assert_eq!(
        vec![Digit::I, Digit::X],
        Roman::from_unchecked(9).to_digits()
    );
}

#[test]
fn ordering_by_value() {
    assert!(Roman::from_unchecked(7) < Roman::from_unchecked(8));
    assert!(Roman::from_unchecked(8) > Roman::from_unchecked(7));
    assert_eq!(
        Roman::from_str("IIII").unwrap(),
        Roman::from_str("IV").unwrap()
    );
    assert_eq!(Roman::from_unchecked(42), Roman::from_unchecked(42));
    assert!(Roman::from_unchecked(42) <= Roman::from_unchecked(42));
}

#[test]
fn error_descriptions() {
    assert_eq!(
        "Encountered an invalid digit",
        Error::InvalidDigit('q').description()
    );
    assert_eq!(
        "Cannot convert number to single roman digit",
        Error::InvalidNumber(3).description()
    );
    assert_eq!(
        "Roman numeral is out of range",
        Error::OutOfRange(4000).description()
    );
}

#[test]
fn decode_stops_at_first_invalid() {
    match Roman::from_str("XXQIX") {
        Err(Error::InvalidDigit(c)) => assert_eq!('Q', c),
        _ => assert!(false),
    }
    match Roman::from_str("?XX") {
        Err(Error::InvalidDigit(c)) => assert_eq!('?', c),
        _ => assert!(false),
    }
}
