use rapt::atoi::atoi_u8;
use rapt::itoa::itoa_u8;

#[test]
fn parses_zero() {
    assert_eq!(atoi_u8(b"0"), Some(0));
}

#[test]
fn parses_the_largest_value() {
    assert_eq!(atoi_u8(b"255"), Some(255));
}

#[test]
fn rejects_overflow() {
    assert_eq!(atoi_u8(b"256"), None);
    assert_eq!(atoi_u8(b"260"), None);
    assert_eq!(atoi_u8(b"999"), None);
    assert_eq!(atoi_u8(b"1000"), None);
    assert_eq!(atoi_u8(b"25500"), None);
}

#[test]
fn rejects_empty_input() {
    assert_eq!(atoi_u8(b""), None);
}

#[test]
fn rejects_a_trailing_letter() {
    assert_eq!(atoi_u8(b"12a"), None);
}

#[test]
fn rejects_a_non_digit_anywhere() {
    assert_eq!(atoi_u8(b"a12"), None);
    assert_eq!(atoi_u8(b"1 2"), None);
    assert_eq!(atoi_u8(b"+1"), None);
    assert_eq!(atoi_u8(b"-1"), None);
    assert_eq!(atoi_u8(b" 1"), None);
    assert_eq!(atoi_u8(b"1/"), None);
    assert_eq!(atoi_u8(b"1:"), None);
    assert_eq!(atoi_u8(&[0x31, 0xb2]), None);
}

#[test]
fn accepts_leading_zeros() {
    assert_eq!(atoi_u8(b"007"), Some(7));
    assert_eq!(atoi_u8(b"000"), Some(0));
    assert_eq!(atoi_u8(b"0000255"), Some(255));
    assert_eq!(atoi_u8(b"0256"), None);
}

#[test]
fn parses_every_digit_and_some_numbers() {
    assert_eq!(atoi_u8(b"9"), Some(9));
    assert_eq!(atoi_u8(b"13"), Some(13));
    assert_eq!(atoi_u8(b"99"), Some(99));
    assert_eq!(atoi_u8(b"100"), Some(100));
    assert_eq!(atoi_u8(b"249"), Some(249));
    assert_eq!(atoi_u8(b"250"), Some(250));
}

#[test]
fn renders_decimal_digits() {
    assert_eq!(itoa_u8(0), b"0".to_vec());
    assert_eq!(itoa_u8(7), b"7".to_vec());
    assert_eq!(itoa_u8(10), b"10".to_vec());
    assert_eq!(itoa_u8(13), b"13".to_vec());
    assert_eq!(itoa_u8(99), b"99".to_vec());
    assert_eq!(itoa_u8(100), b"100".to_vec());
    assert_eq!(itoa_u8(105), b"105".to_vec());
    assert_eq!(itoa_u8(255), b"255".to_vec());
}

#[test]
fn parsing_undoes_rendering_for_every_value() {
    let mut n: u8 = 0;
    loop {
        let digits = itoa_u8(n);
        assert_eq!(atoi_u8(&digits), Some(n));
        assert_eq!(digits, format!("{}", n).into_bytes());
        if n == 255 {
            break;
        }
        n += 1;
    }
}
