use septem::{Digit, Error};

#[test]
fn digit_from_int_valid() {
    let n = Digit::from_int(5);
    assert!(n.is_ok());
    assert_eq!(Digit::V, n.unwrap());
}

#[test]
fn digit_from_int_invalid() {
    match Digit::from_int(3) {
        Err(Error::InvalidNumber(num)) => assert_eq!(3, num),
        _ => assert!(false),
    }
}

#[test]
fn digit_to_int() {
    let i: u32 = Digit::V.into();
    assert_eq!(5u32, i);
}

#[test]
fn digit_display() {
    assert_eq!('V', (&Digit::V).into());
}

#[test]
fn digit_from_char_all_cases() {
    let upper = ['I', 'V', 'X', 'L', 'C', 'D', 'M'];
    let lower = ['i', 'v', 'x', 'l', 'c', 'd', 'm'];
    let digits = [
        Digit::I,
        Digit::V,
        Digit::X,
        Digit::L,
        Digit::C,
        Digit::D,
        Digit::M,
    ];
    for k in 0..7 {
        assert_eq!(digits[k], Digit::from_char(upper[k]).unwrap());
        assert_eq!(digits[k], Digit::from_char(lower[k]).unwrap());
        assert_eq!(upper[k], digits[k].to_uppercase());
        assert_eq!(lower[k], digits[k].to_lowercase());
    }
}

#[test]
fn digit_from_char_invalid() {
    match Digit::from_char('q') {
        Err(Error::InvalidDigit(c)) => assert_eq!('q', c),
        _ => assert!(false),
    }
    match Digit::from_char(' ') {
        Err(Error::InvalidDigit(c)) => assert_eq!(' ', c),
        _ => assert!(false),
    }
}

#[test]
fn digit_magnitudes() {
    let values = [1u32, 5, 10, 50, 100, 500, 1000];
    for v in values {
        let d = Digit::from_int(v).unwrap();
        assert_eq!(v, d.magnitude());
    }
}
