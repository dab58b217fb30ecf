use barcoders::error::Error;
use barcoders::helpers::join_slices;
use barcoders::msi::{ENCODINGS, LEFT_GUARD, MOD_10, MSI, RIGHT_GUARD};
use barcoders::parse::{parse, Parse};

fn expected(digits: &[usize], check: usize) -> Vec<u8> {
    let mut v: Vec<u8> = LEFT_GUARD.to_vec();
    for d in digits {
        v.extend_from_slice(&ENCODINGS[*d]);
    }
    v.extend_from_slice(&ENCODINGS[check]);
    v.extend_from_slice(&RIGHT_GUARD);
    v
}

#[test]
fn msi_encode() {
    let msi_0 = MSI::new("01").unwrap();
    let msi_0_encoded = msi_0.encode();
    let msi_0_encoded_mod10 = msi_0.encode_mod10();
    println!("!!! msi_0 {:?}", msi_0);
    println!("!!! msi_0_encoded {:?}", msi_0_encoded);
    println!("!!! msi_0_encoded_mod10 {:?}", msi_0_encoded_mod10);
    println!("!!! msi_0_encoded_mod10 {:?}", ENCODINGS[msi_0_encoded_mod10 as usize]);
}

#[test]
fn check_digit_of_01_is_8() {
    let m = MSI::new("01").unwrap();
    assert_eq!(m.encode_mod10(), 8);
}

#[test]
fn encode_01_exact_modules() {
    let m = MSI::new("01").unwrap();
    let out = m.encode();
    assert_eq!(out.len(), 43);
    assert_eq!(out, expected(&[0, 1], 8));
}

#[test]
fn check_digit_of_1234567_is_4() {
    let m = MSI::new("1234567").unwrap();
    assert_eq!(m.encode_mod10(), 4);
    assert_eq!(m.encode(), expected(&[1, 2, 3, 4, 5, 6, 7], 4));
}

#[test]
fn check_digit_of_multiple_of_ten_is_ten() {
    // Weighted sum 0 gives 10 - 0 = 10, which is drawn with the pattern of 0.
    let m = MSI::new("0").unwrap();
    assert_eq!(m.encode_mod10(), MOD_10);
    assert_eq!(m.encode(), expected(&[0], 0));
    // 5 doubles to 10, whose digits add to 1; 9 at odd distance adds 9.
    let n = MSI::new("95").unwrap();
    assert_eq!(n.encode_mod10(), 10);
    assert_eq!(n.encode(), expected(&[9, 5], 0));
}

#[test]
fn digit_nine_is_accepted() {
    let m = MSI::new("9").unwrap();
    // 9 doubles to 18, whose digits add to 9: 10 - 9 = 1.
    assert_eq!(m.encode_mod10(), 1);
    assert_eq!(m.encode(), expected(&[9], 1));
}

#[test]
fn empty_input_is_invalid_length() {
    assert_eq!(MSI::new("").unwrap_err(), Error::InvalidLength);
}

#[test]
fn fifty_digits_is_invalid_length() {
    let s = "1".repeat(50);
    assert_eq!(MSI::new(&s).unwrap_err(), Error::InvalidLength);
    let long = "12345".repeat(40);
    assert_eq!(MSI::new(&long).unwrap_err(), Error::InvalidLength);
}

#[test]
fn forty_nine_digits_is_accepted() {
    let s = "7".repeat(49);
    let m = MSI::new(&s).unwrap();
    assert_eq!(m.encode().len(), 3 + 12 * 49 + 12 + 4);
}

#[test]
fn letter_is_invalid_character() {
    assert_eq!(
        MSI::new("1a").unwrap_err(),
        Error::InvalidCharacter { position: 1, character: 'a' }
    );
}

#[test]
fn first_bad_character_is_reported() {
    assert_eq!(
        MSI::new("12x4-").unwrap_err(),
        Error::InvalidCharacter { position: 2, character: 'x' }
    );
    assert_eq!(
        MSI::new("é1").unwrap_err(),
        Error::InvalidCharacter { position: 0, character: 'é' }
    );
    assert_eq!(
        MSI::new("0 ").unwrap_err(),
        Error::InvalidCharacter { position: 1, character: ' ' }
    );
}

#[test]
fn length_is_checked_before_characters() {
    let s = "a".repeat(50);
    assert_eq!(MSI::new(&s).unwrap_err(), Error::InvalidLength);
}

#[test]
fn encoded_length_formula() {
    for s in ["5", "01", "1234567", "000000000000"] {
        let m = MSI::new(s).unwrap();
        assert_eq!(m.encode().len(), 3 + 12 * s.len() + 12 + 4);
    }
}

#[test]
fn check_digit_is_deterministic() {
    let m = MSI::new("8675309").unwrap();
    let first = m.encode_mod10();
    let second = m.encode_mod10();
    assert_eq!(first, second);
    assert_eq!(m.encode(), m.encode());
}

#[test]
fn parse_returns_input_unchanged() {
    assert_eq!(parse::<MSI>("0123456789").unwrap(), "0123456789");
    assert_eq!(parse::<MSI>("").unwrap_err(), Error::InvalidLength);
    assert_eq!(
        parse::<MSI>("12b").unwrap_err(),
        Error::InvalidCharacter { position: 2, character: 'b' }
    );
}

#[test]
fn msi_rules() {
    assert_eq!(MSI::valid_len(), 1..50);
    assert_eq!(
        MSI::valid_chars(),
        vec!['0', '1', '2', '3', '4', '5', '6', '7', '8', '9']
    );
}

#[test]
fn join_slices_keeps_order() {
    let a: [u8; 2] = [1, 1];
    let b: [u8; 0] = [];
    let c: [u8; 3] = [0, 1, 0];
    assert_eq!(join_slices(&[&a[..], &b[..], &c[..]]), vec![1, 1, 0, 1, 0]);
    assert_eq!(join_slices(&[]), Vec::<u8>::new());
}
