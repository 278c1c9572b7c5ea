use septem::{Error, Numeral};

#[test]
fn numeral_from_int_valid() {
    let n = Numeral::from_int(5);
    assert!(n.is_ok());
    assert_eq!(Numeral::V, n.unwrap());
}

#[test]
fn numeral_from_int_invalid() {
    match Numeral::from_int(3) {
        Err(Error::InvalidNumber(num)) => assert_eq!(3, num),
        _ => assert!(false),
    }
}

#[test]
fn numeral_to_int() {
    let i: u32 = Numeral::V.into();
    assert_eq!(5u32, i);
}

#[test]
fn numeral_display() {
    assert_eq!('V', (&Numeral::V).into());
}

#[test]
fn numeral_from_char_mixed_case() {
    assert_eq!(Numeral::M, Numeral::from_char('m').unwrap());
    assert_eq!(Numeral::M, Numeral::from_char('M').unwrap());
    match Numeral::from_char('7') {
        Err(Error::InvalidDigit(c)) => assert_eq!('7', c),
        _ => assert!(false),
    }
}
