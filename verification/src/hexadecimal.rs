//! Hexadecimal text.

use vstd::prelude::*;
use vstd::string::*;

verus! {

/// Why a text is not the hexadecimal form of a byte string.
#[derive(Clone, Copy, Debug, PartialEq, Eq)]
pub enum HexError {
    /// The byte `c` at position `index` is no digit, and is the first such.
    InvalidCharacter { c: char, index: usize },
    /// The text does not consist of pairs of digits.
    OddLength,
    /// The text has not the length that its destination asks for.
    InvalidStringLength,
}

/// The value of a digit in ASCII, in either case; `-1` for any other byte.
pub open spec fn digit_value(c: u8) -> int {
    if 0x30 <= c <= 0x39 {
        c - 0x30
    } else if 0x61 <= c <= 0x66 {
        c - 0x61 + 10
    } else if 0x41 <= c <= 0x46 {
        c - 0x41 + 10
    } else {
        -1
    }
}

/// A digit in ASCII, in either case.
pub open spec fn is_digit(c: u8) -> bool {
    digit_value(c) >= 0
}

/// `text` is the hexadecimal form of some byte string.
pub open spec fn valid_hex(text: Seq<u8>) -> bool {
    &&& text.len() % 2 == 0
    &&& forall|i: int| 0 <= i < text.len() ==> is_digit(#[trigger] text[i])
}

/// `text` is a hexadecimal form of `bytes`: two digits for each byte, the
/// high one first.
pub open spec fn decodes_to(text: Seq<u8>, bytes: Seq<u8>) -> bool {
    &&& valid_hex(text)
    &&& text.len() == 2 * bytes.len()
    &&& forall|i: int|
        0 <= i < bytes.len() ==> #[trigger] bytes[i] == 16 * digit_value(text[2 * i]) + digit_value(
            text[2 * i + 1],
        )
}

/// `error` is what is wrong with `text`.
pub open spec fn hex_fault(text: Seq<u8>, error: HexError) -> bool {
    match error {
        HexError::OddLength => text.len() % 2 == 1,
        HexError::InvalidCharacter { c, index } => {
            &&& text.len() % 2 == 0
            &&& index < text.len()
            &&& c as int == text[index as int] as int
            &&& !is_digit(text[index as int])
            &&& forall|i: int| 0 <= i < index ==> is_digit(#[trigger] text[i])
        },
        HexError::InvalidStringLength => false,
    }
}

/// The lower-case digit of a value below sixteen.
pub open spec fn lower_digit(value: int) -> char {
    if value < 10 {
        (value + 0x30) as char
    } else {
        (value - 10 + 0x61) as char
    }
}

/// The hexadecimal form of a byte string in lower case.
pub open spec fn lower_hex(bytes: Seq<u8>) -> Seq<char> {
    Seq::new(
        2 * bytes.len(),
        |i: int|
            if i % 2 == 0 {
                lower_digit(bytes[i / 2] as int / 16)
            } else {
                lower_digit(bytes[i / 2] as int % 16)
            },
    )
}

/// The bytes whose hexadecimal form is `text`. Calls `hex::decode`, which
/// takes digits of either case, refuses a text of odd length before it looks
/// at any digit, and otherwise refuses the first byte that is no digit.
#[verifier::external_body]
pub(crate) fn decode(text: &str) -> (r: Result<Vec<u8>, HexError>)
    ensures
        match r {
            Ok(bytes) => decodes_to(text.spec_bytes(), bytes@),
            Err(error) => hex_fault(text.spec_bytes(), error),
        },
{
    match hex::decode(text) {
        Ok(bytes) => Ok(bytes),
        Err(hex::FromHexError::InvalidHexCharacter { c, index }) => Err(
            HexError::InvalidCharacter { c, index },
        ),
        Err(hex::FromHexError::OddLength) => Err(HexError::OddLength),
        Err(hex::FromHexError::InvalidStringLength) => Err(HexError::InvalidStringLength),
    }
}

/// Appends the lower-case digit of `value`.
fn push_digit(text: &mut String, value: u8)
    requires
        value < 16,
    ensures
        final(text)@ == old(text)@.push(lower_digit(value as int)),
{
    let digit = match value {
        0 => "0",
        1 => "1",
        2 => "2",
        3 => "3",
        4 => "4",
        5 => "5",
        6 => "6",
        7 => "7",
        8 => "8",
        9 => "9",
        10 => "a",
        11 => "b",
        12 => "c",
        13 => "d",
        14 => "e",
        _ => "f",
    };
    proof {
        reveal_strlit("0");
        reveal_strlit("1");
        reveal_strlit("2");
        reveal_strlit("3");
        reveal_strlit("4");
        reveal_strlit("5");
        reveal_strlit("6");
        reveal_strlit("7");
        reveal_strlit("8");
        reveal_strlit("9");
        reveal_strlit("a");
        reveal_strlit("b");
        reveal_strlit("c");
        reveal_strlit("d");
        reveal_strlit("e");
        reveal_strlit("f");
        assert(digit@ =~= seq![lower_digit(value as int)]);
    }
    text.append(digit);
}

/// The hexadecimal form of a byte string in lower case.
pub fn to_lower_hex(bytes: &[u8]) -> (r: String)
    ensures
        r@ == lower_hex(bytes@),
{
    let mut text = String::new();
    let mut i: usize = 0;
    while i < bytes.len()
        invariant
            i <= bytes@.len(),
            text@ =~= lower_hex(bytes@.take(i as int)),
        decreases bytes@.len() - i,
    {
        push_digit(&mut text, bytes[i] / 16);
        push_digit(&mut text, bytes[i] % 16);
        i += 1;
    }
    assert(bytes@.take(i as int) =~= bytes@);
    text
}

/// The digits from `0` to `9`, from `A` to `F` and from `a` to `f` have their
/// values, and no other byte is a digit.
pub proof fn law_digit_values(c: u8)
    ensures
        48 <= c <= 57 ==> digit_value(c) == c - 48,
        65 <= c <= 70 ==> digit_value(c) == c - 55,
        97 <= c <= 102 ==> digit_value(c) == c - 87,
        is_digit(c) <==> 48 <= c <= 57 || 65 <= c <= 70 || 97 <= c <= 102,
{
}

/// The lower-case form of a byte string has two characters for each byte: the
/// one for its high half, and the one for its low half. The characters are
/// those from `0` to `9` and from `a` to `f`.
pub proof fn law_lower_hex_digits(bytes: Seq<u8>, i: int)
    requires
        0 <= i < bytes.len(),
    ensures
        lower_hex(bytes).len() == 2 * bytes.len(),
        ({
            let high = bytes[i] as int / 16;
            let low = bytes[i] as int % 16;
            &&& high < 10 ==> lower_hex(bytes)[2 * i] as int == 48 + high
            &&& high >= 10 ==> lower_hex(bytes)[2 * i] as int == 87 + high
            &&& low < 10 ==> lower_hex(bytes)[2 * i + 1] as int == 48 + low
            &&& low >= 10 ==> lower_hex(bytes)[2 * i + 1] as int == 87 + low
        }),
{
    assert((2 * i) / 2 == i && (2 * i + 1) / 2 == i);
    assert((2 * i) % 2 == 0 && (2 * i + 1) % 2 == 1);
}

/// Different byte strings have different lower-case forms.
pub proof fn law_lower_hex_is_injective(bytes: Seq<u8>, other: Seq<u8>)
    ensures
        lower_hex(bytes) == lower_hex(other) <==> bytes == other,
{
    if lower_hex(bytes) == lower_hex(other) {
        assert(lower_hex(bytes).len() == 2 * bytes.len());
        assert(lower_hex(other).len() == 2 * other.len());
        law_lower_hex_decodes_back(bytes);
        law_lower_hex_decodes_back(other);
        law_decoding_is_a_function(
            Seq::new(2 * bytes.len(), |i: int| lower_hex(bytes)[i] as u8),
            bytes,
            other,
            HexError::OddLength,
        );
    }
}

/// A text decodes exactly when it consists of pairs of digits, and then to one
/// byte for each pair.
pub proof fn law_pairs_of_digits_are_decoded(text: Seq<u8>, bytes: Seq<u8>)
    ensures
        valid_hex(text) <==> text.len() % 2 == 0 && forall|i: int|
            0 <= i < text.len() ==> is_digit(#[trigger] text[i]),
        decodes_to(text, bytes) <==> valid_hex(text) && text.len() == 2 * bytes.len() && forall|
            i: int,
        |
            0 <= i < bytes.len() ==> #[trigger] bytes[i] == 16 * digit_value(text[2 * i])
                + digit_value(text[2 * i + 1]),
{
}

/// A text of odd length is refused for its length, whatever its bytes are. One
/// of even length is refused for its first byte that is no digit, and for
/// nothing else.
pub proof fn law_faults_are_told_apart(text: Seq<u8>, c: char, index: usize)
    ensures
        hex_fault(text, HexError::OddLength) <==> text.len() % 2 == 1,
        hex_fault(text, HexError::InvalidCharacter { c, index }) <==> {
            &&& text.len() % 2 == 0
            &&& index < text.len()
            &&& c as int == text[index as int] as int
            &&& !is_digit(text[index as int])
            &&& forall|i: int| 0 <= i < index ==> is_digit(#[trigger] text[i])
        },
        !hex_fault(text, HexError::InvalidStringLength),
{
}

/// A text decodes to one byte string at most, and exactly when nothing is
/// wrong with it.
pub proof fn law_decoding_is_a_function(
    text: Seq<u8>,
    bytes: Seq<u8>,
    other: Seq<u8>,
    error: HexError,
)
    ensures
        decodes_to(text, bytes) && decodes_to(text, other) ==> bytes == other,
        decodes_to(text, bytes) ==> !hex_fault(text, error),
{
    if decodes_to(text, bytes) && decodes_to(text, other) {
        assert(bytes =~= other);
    }
    if let HexError::InvalidCharacter { c, index } = error {
        if decodes_to(text, bytes) && index < text.len() {
            assert(is_digit(text[index as int]));
        }
    }
}

/// The lower-case form of a byte string, taken as ASCII, decodes to the byte
/// string.
pub proof fn law_lower_hex_decodes_back(bytes: Seq<u8>)
    ensures
        decodes_to(Seq::new(2 * bytes.len(), |i: int| lower_hex(bytes)[i] as u8), bytes),
{
    let text = Seq::new(2 * bytes.len(), |i: int| lower_hex(bytes)[i] as u8);
    assert forall|i: int| 0 <= i < bytes.len() implies #[trigger] bytes[i] == 16 * digit_value(
        text[2 * i],
    ) + digit_value(text[2 * i + 1]) by {
        assert((2 * i) / 2 == i && (2 * i + 1) / 2 == i);
        assert((2 * i) % 2 == 0 && (2 * i + 1) % 2 == 1);
    }
}

/// Where a text of lower-case digits decodes to a byte string, it is the
/// byte string's lower-case form.
pub proof fn law_decoded_text_is_lower_hex(text: Seq<char>, bytes: Seq<u8>)
    requires
        forall|i: int| 0 <= i < text.len() ==> is_lower_digit(#[trigger] text[i]),
        decodes_to(Seq::new(text.len(), |i: int| text[i] as u8), bytes),
    ensures
        lower_hex(bytes) == text,
{
    let ascii = Seq::new(text.len(), |i: int| text[i] as u8);
    assert forall|i: int| 0 <= i < text.len() implies lower_hex(bytes)[i] == text[i] by {
        let k = i / 2;
        assert(bytes[k] == 16 * digit_value(ascii[2 * k]) + digit_value(ascii[2 * k + 1]));
        assert(is_lower_digit(text[2 * k]));
        assert(is_lower_digit(text[2 * k + 1]));
        assert(i == 2 * k || i == 2 * k + 1);
    }
    assert(lower_hex(bytes) =~= text);
}

/// A digit, and no capital letter.
pub open spec fn is_lower_digit(c: char) -> bool {
    0x30 <= c as int <= 0x39 || 0x61 <= c as int <= 0x66
}

} // verus!
