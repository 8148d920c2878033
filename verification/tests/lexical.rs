use zinc::lexical::parse_integer;
use zinc::lexical::stream::integer::Error;
use zinc::lexical::BooleanLiteral;
use zinc::lexical::IntegerLiteral;
use zinc::lexical::Literal;

fn decimal(size: usize, digits: &str) -> (usize, String, bool) {
    (size, String::from(digits), false)
}

fn hexadecimal(size: usize, digits: &str) -> (usize, String, bool) {
    (size, String::from(digits), true)
}

fn parsed(text: &str) -> (usize, String, bool) {
    match parse_integer(text.as_bytes()).expect("an integer literal") {
        (size, IntegerLiteral::Decimal { value }) => (size, value, false),
        (size, IntegerLiteral::Hexadecimal { value }) => (size, value, true),
    }
}

#[test]
fn decimal_literals_end_at_the_first_other_byte() {
    assert_eq!(parsed("42"), decimal(2, "42"));
    assert_eq!(parsed("42;"), decimal(2, "42"));
    assert_eq!(parsed("7 + 1"), decimal(1, "7"));
    assert_eq!(parsed("1_000_000 "), decimal(9, "1000000"));
    assert_eq!(parsed("9_"), decimal(2, "9"));
    assert_eq!(parsed("1234567890"), decimal(10, "1234567890"));
}

#[test]
fn zero_is_a_literal_by_itself() {
    assert_eq!(parsed("0"), decimal(1, "0"));
    assert_eq!(parsed("0;"), decimal(1, "0"));
    assert_eq!(parsed("01"), decimal(1, "0"));
    assert_eq!(parsed("0_1"), decimal(1, "0"));
}

#[test]
fn no_input_is_an_empty_literal() {
    assert_eq!(parsed(""), decimal(0, ""));
}

#[test]
fn hexadecimal_literals_begin_with_zero_and_x() {
    assert_eq!(parsed("0xff"), hexadecimal(4, "ff"));
    assert_eq!(parsed("0xDEAD_beef;"), hexadecimal(11, "DEADbeef"));
    assert_eq!(parsed("0x1f + 2"), hexadecimal(4, "1f"));
    assert_eq!(parsed("0x"), hexadecimal(2, ""));
    assert_eq!(parsed("0x_1"), hexadecimal(4, "1"));
}

#[test]
fn other_bytes_are_no_integer() {
    assert!(matches!(parse_integer(b"abc"), Err(Error::NotAnInteger)));
    assert!(matches!(parse_integer(b" 1"), Err(Error::NotAnInteger)));
    assert!(matches!(parse_integer(b"_1"), Err(Error::NotAnInteger)));
    assert!(matches!(parse_integer(b"-1"), Err(Error::NotAnInteger)));
}

#[test]
fn letters_in_decimal_literals_are_reported() {
    match parse_integer(b"12a4") {
        Err(Error::InvalidDecimalCharacter(character, position, text)) => {
            assert_eq!((character, position, text.as_str()), ('a', 3, "12a"));
        }
        _ => panic!("a letter is no decimal digit"),
    }
    match parse_integer(b"0b1") {
        Err(Error::InvalidDecimalCharacter(character, position, text)) => {
            assert_eq!((character, position, text.as_str()), ('b', 2, "0b"));
        }
        _ => panic!("a letter is no decimal digit"),
    }
    match parse_integer(b"1_x") {
        Err(Error::InvalidDecimalCharacter(character, position, text)) => {
            assert_eq!((character, position, text.as_str()), ('x', 3, "1_x"));
        }
        _ => panic!("a letter is no decimal digit"),
    }
}

#[test]
fn wrong_bytes_in_hexadecimal_literals_are_reported() {
    match parse_integer(b"0xfg") {
        Err(Error::InvalidHexadecimalCharacter(character, position, text)) => {
            assert_eq!((character, position, text.as_str()), ('g', 4, "0xfg"));
        }
        _ => panic!("a letter behind f is no hexadecimal digit"),
    }
    match parse_integer(b"0x;") {
        Err(Error::InvalidHexadecimalCharacter(character, position, text)) => {
            assert_eq!((character, position, text.as_str()), (';', 3, "0x;"));
        }
        _ => panic!("a hexadecimal literal needs a digit"),
    }
    match parse_integer(&[b'0', b'x', 0xff]) {
        Err(Error::InvalidHexadecimalCharacter(character, position, text)) => {
            assert_eq!((character, position, text.as_str()), ('\u{ff}', 3, "0x\u{fffd}"));
        }
        _ => panic!("a hexadecimal literal needs a digit"),
    }
}

#[test]
fn literals_are_written_as_they_were_read() {
    assert_eq!(Literal::Boolean(BooleanLiteral::True).to_string(), "true");
    assert_eq!(Literal::Boolean(BooleanLiteral::False).to_string(), "false");
    assert_eq!(Literal::Integer(IntegerLiteral::new(b"1_0")).to_string(), "10");
    assert_eq!(Literal::Integer(IntegerLiteral::new(b"0x_aB")).to_string(), "0xaB");
    assert_eq!(Literal::Integer(IntegerLiteral::decimal(String::from("5"))).to_string(), "5");
    assert_eq!(Literal::Integer(IntegerLiteral::hexadecimal(String::from("5"))).to_string(), "0x5");
}
