//! Text: numbers written out, and bytes read as characters.

use vstd::prelude::*;

verus! {

/// The text that the standard library reads bytes as: the characters that
/// the bytes encode in UTF-8, with a replacement character for what is not
/// UTF-8.
pub uninterp spec fn lossy_text(bytes: Seq<u8>) -> Seq<char>;

/// Whether every byte is an ASCII character.
pub open spec fn all_ascii(bytes: Seq<u8>) -> bool {
    forall|i: int| 0 <= i < bytes.len() ==> #[trigger] bytes[i] < 128
}

/// Bytes read as text: ASCII bytes as the characters of the same numbers,
/// one for one; other bytes as the standard library reads them.
pub open spec fn read_text(bytes: Seq<u8>) -> Seq<char> {
    if all_ascii(bytes) {
        Seq::new(bytes.len(), |i: int| bytes[i] as char)
    } else {
        lossy_text(bytes)
    }
}

/// `String::from_utf8_lossy`: bytes read as text. ASCII bytes are read as
/// the characters of the same numbers, one for one; of other bytes only
/// the name of what they are read as is known.
#[verifier::external_body]
fn text_from_bytes(bytes: &[u8]) -> (text: String)
    ensures
        all_ascii(bytes@) ==> text@ == Seq::new(bytes@.len(), |i: int| bytes@[i] as char),
        !all_ascii(bytes@) ==> text@ == lossy_text(bytes@),
{
    String::from_utf8_lossy(bytes).into_owned()
}

/// Reads bytes as text.
pub(crate) fn text_of(bytes: &[u8]) -> (text: String)
    ensures
        text@ == read_text(bytes@),
{
    text_from_bytes(bytes)
}

/// The character of a decimal digit.
pub open spec fn digit(value: nat) -> char {
    if value == 0 {
        '0'
    } else if value == 1 {
        '1'
    } else if value == 2 {
        '2'
    } else if value == 3 {
        '3'
    } else if value == 4 {
        '4'
    } else if value == 5 {
        '5'
    } else if value == 6 {
        '6'
    } else if value == 7 {
        '7'
    } else if value == 8 {
        '8'
    } else {
        '9'
    }
}

/// A natural number in decimal notation, without leading zeros.
pub open spec fn decimal(value: nat) -> Seq<char>
    decreases value,
{
    if value < 10 {
        seq![digit(value)]
    } else {
        decimal(value / 10).push(digit(value % 10))
    }
}

/// The text of one decimal digit.
fn digit_text(value: usize) -> (text: &'static str)
    requires
        value < 10,
    ensures
        text@ == seq![digit(value as nat)],
{
    proof {
        reveal_strlit("0");
        reveal_strlit("1");
        reveal_strlit("2");
        reveal_strlit("3");
        reveal_strlit("4");
        reveal_strlit("5");
        reveal_strlit("6");
        reveal_strlit("7");
        reveal_strlit("8");
        reveal_strlit("9");
    }
    let text = if value == 0 {
        "0"
    } else if value == 1 {
        "1"
    } else if value == 2 {
        "2"
    } else if value == 3 {
        "3"
    } else if value == 4 {
        "4"
    } else if value == 5 {
        "5"
    } else if value == 6 {
        "6"
    } else if value == 7 {
        "7"
    } else if value == 8 {
        "8"
    } else {
        "9"
    };
    assert(text@ =~= seq![digit(value as nat)]);
    text
}

/// Writes a number in decimal notation.
pub fn decimal_text(value: usize) -> (text: String)
    ensures
        text@ == decimal(value as nat),
    decreases value,
{
    if value < 10 {
        digit_text(value).to_owned()
    } else {
        let mut text = decimal_text(value / 10);
        text.append(digit_text(value % 10));
        assert(text@ =~= decimal(value as nat));
        text
    }
}

/// Adds a word to a line, after a space.
pub fn append_word(line: &mut String, word: &str)
    ensures
        final(line)@ == old(line)@ + seq![' '] + word@,
{
    proof {
        reveal_strlit(" ");
    }
    line.append(" ");
    line.append(word);
    assert(line@ =~= old(line)@ + seq![' '] + word@);
}

} // verus!
