//! Hexadecimal text: what it says of bytes, and the codec of the `hex` crate.
use vstd::prelude::*;
use vstd::utf8;

verus! {

/// The lower-case digit that stands for `n`, `0 <= n < 16`.
pub open spec fn hex_digit(n: int) -> char {
    if n < 10 {
        (48 + n) as char
    } else {
        (87 + n) as char
    }
}

/// The text that spells `bytes`: two lower-case digits a byte, the high half first.
pub open spec fn hex_text(bytes: Seq<u8>) -> Seq<char> {
    Seq::new(
        2 * bytes.len(),
        |i: int| hex_digit(if i % 2 == 0 { bytes[i / 2] / 16 } else { bytes[i / 2] % 16 } as int),
    )
}

/// The number that an ASCII digit of either case stands for.
pub open spec fn digit_value(c: u8) -> Option<int> {
    if 48 <= c <= 57 {
        Some(c - 48)
    } else if 65 <= c <= 70 {
        Some(c - 55)
    } else if 97 <= c <= 102 {
        Some(c - 87)
    } else {
        None
    }
}

/// Whether `text`, taken byte by byte, spells a whole number of bytes.
pub open spec fn is_hex(text: Seq<u8>) -> bool {
    &&& text.len() % 2 == 0
    &&& forall|i: int| 0 <= i < text.len() ==> (#[trigger] digit_value(text[i])) is Some
}

/// The bytes that `text` spells.
pub open spec fn hex_bytes(text: Seq<u8>) -> Seq<u8> {
    Seq::new(
        text.len() / 2,
        |i: int| (16 * digit_value(text[2 * i])->0 + digit_value(text[2 * i + 1])->0) as u8,
    )
}

/// Why a text is not hexadecimal.
#[derive(Clone, Copy, Debug, PartialEq, Eq)]
pub enum HexError {
    /// Half a byte is left over.
    OddLength,
    /// The byte at `index`, the first such one, is no digit.
    InvalidHexCharacter { c: char, index: usize },
    /// The text does not fill the place it is read into.
    InvalidStringLength,
}

/// What holds of `text` when it is refused with `error`.
pub open spec fn hex_refused(text: Seq<u8>, error: HexError) -> bool {
    match error {
        HexError::OddLength => text.len() % 2 != 0,
        HexError::InvalidHexCharacter { c, index } => {
            &&& text.len() % 2 == 0
            &&& index < text.len()
            &&& digit_value(text[index as int]) is None
            &&& c as int == text[index as int]
            &&& forall|i: int| 0 <= i < index ==> (#[trigger] digit_value(text[i])) is Some
        },
        HexError::InvalidStringLength => false,
    }
}

/// `hex::encode`: two lower-case digits for each byte, in order.
#[verifier::external_body]
pub(crate) fn hex_encode(data: &[u8]) -> (text: String)
    ensures
        text@ == hex_text(data@),
{
    hex::encode(data)
}

/// `hex::decode` into a vector: works on the UTF-8 bytes of the text, takes digits of either
/// case, and reports an odd length before anything else, then the first byte that is no digit.
#[verifier::external_body]
pub(crate) fn hex_decode(text: &str) -> (r: Result<Vec<u8>, HexError>)
    ensures
        match r {
            Ok(bytes) => is_hex(utf8::encode_utf8(text@)) && bytes@ == hex_bytes(utf8::encode_utf8(text@)),
            Err(error) => hex_refused(utf8::encode_utf8(text@), error),
        },
{
    hex::decode(text).map_err(|e| match e {
        hex::FromHexError::InvalidHexCharacter { c, index } => HexError::InvalidHexCharacter { c, index },
        hex::FromHexError::OddLength => HexError::OddLength,
        hex::FromHexError::InvalidStringLength => HexError::InvalidStringLength,
    })
}

/// The text of any bytes is ASCII, and byte `i` of its UTF-8 form is its character `i`.
pub proof fn lemma_hex_text_is_ascii(bytes: Seq<u8>)
    ensures
        utf8::is_ascii_chars(hex_text(bytes)),
        utf8::encode_utf8(hex_text(bytes)).len() == 2 * bytes.len(),
        forall|i: int|
            0 <= i < 2 * bytes.len() ==> (#[trigger] utf8::encode_utf8(hex_text(bytes))[i]) as int
                == hex_text(bytes)[i] as int,
{
    assert forall|i: int| 0 <= i < hex_text(bytes).len() implies '\0' <= #[trigger] hex_text(
        bytes,
    )[i] <= '\u{7f}' by {
        assert(0 <= bytes[i / 2] / 16 < 16);
        assert(0 <= bytes[i / 2] % 16 < 16);
    }
    utf8::is_ascii_chars_encode_utf8(hex_text(bytes));
}

/// The text that spells some bytes is hexadecimal, and spells just those bytes.
pub proof fn law_hex_round_trip(bytes: Seq<u8>)
    ensures
        is_hex(utf8::encode_utf8(hex_text(bytes))),
        hex_bytes(utf8::encode_utf8(hex_text(bytes))) == bytes,
{
    let text = utf8::encode_utf8(hex_text(bytes));
    lemma_hex_text_is_ascii(bytes);
    assert forall|i: int| 0 <= i < text.len() implies (#[trigger] digit_value(text[i])) == Some(
        if i % 2 == 0 {
            bytes[i / 2] / 16
        } else {
            bytes[i / 2] % 16
        } as int,
    ) by {
        assert(text[i] as int == hex_text(bytes)[i] as int);
    }
    assert forall|i: int| 0 <= i < bytes.len() implies hex_bytes(text)[i] == bytes[i] by {
        assert(digit_value(text[2 * i]) is Some);
        assert(digit_value(text[2 * i + 1]) is Some);
    }
    assert(hex_bytes(text) =~= bytes);
}

/// A text with its ASCII letters in upper case.
pub open spec fn upper_case(text: Seq<char>) -> Seq<char> {
    text.map_values(
        |c: char|
            if 'a' <= c <= 'z' {
                (c as u32 - 32) as char
            } else {
                c
            },
    )
}

/// The text that spells some bytes spells them in upper case too.
pub proof fn law_hex_upper_case(bytes: Seq<u8>)
    ensures
        is_hex(utf8::encode_utf8(upper_case(hex_text(bytes)))),
        hex_bytes(utf8::encode_utf8(upper_case(hex_text(bytes)))) == bytes,
{
    let chars = upper_case(hex_text(bytes));
    assert forall|i: int| 0 <= i < chars.len() implies '\0' <= #[trigger] chars[i] <= '\u{7f}' by {
        assert(0 <= bytes[i / 2] / 16 < 16);
        assert(0 <= bytes[i / 2] % 16 < 16);
    }
    utf8::is_ascii_chars_encode_utf8(chars);
    let text = utf8::encode_utf8(chars);
    assert forall|i: int| 0 <= i < text.len() implies (#[trigger] digit_value(text[i])) == Some(
        if i % 2 == 0 {
            bytes[i / 2] / 16
        } else {
            bytes[i / 2] % 16
        } as int,
    ) by {
        assert(text[i] as int == chars[i] as int);
    }
    assert forall|i: int| 0 <= i < bytes.len() implies hex_bytes(text)[i] == bytes[i] by {
        assert(digit_value(text[2 * i]) is Some);
        assert(digit_value(text[2 * i + 1]) is Some);
    }
    assert(hex_bytes(text) =~= bytes);
}

/// Spelling the bytes that a hexadecimal text stands for gives the text back, in lower case.
pub proof fn law_hex_respelled(text: Seq<u8>)
    requires
        is_hex(text),
    ensures
        hex_text(hex_bytes(text)).len() == text.len(),
        forall|i: int|
            0 <= i < text.len() ==> (#[trigger] hex_text(hex_bytes(text))[i]) as int == if 65
                <= text[i] <= 70 {
                text[i] + 32
            } else {
                text[i] as int
            },
{
    let bytes = hex_bytes(text);
    assert forall|i: int| 0 <= i < text.len() implies (#[trigger] hex_text(bytes)[i]) as int == if 65
        <= text[i] <= 70 {
        text[i] + 32
    } else {
        text[i] as int
    } by {
        let n = i / 2;
        assert(digit_value(text[2 * n]) is Some);
        assert(digit_value(text[2 * n + 1]) is Some);
        assert(bytes[n] as int == 16 * digit_value(text[2 * n])->0 + digit_value(
            text[2 * n + 1],
        )->0);
        assert(bytes[n] / 16 == digit_value(text[2 * n])->0);
        assert(bytes[n] % 16 == digit_value(text[2 * n + 1])->0);
    }
}

/// Why a text is refused, told from its bytes: for its length if that is odd, else for the first byte
/// that is no digit, which is named with its place; and a text is refused only if it is not
/// hexadecimal.
pub proof fn law_hex_refused(text: Seq<u8>, c: char, index: usize)
    ensures
        hex_refused(text, HexError::OddLength) <==> text.len() % 2 == 1,
        !hex_refused(text, HexError::InvalidStringLength),
        hex_refused(text, HexError::InvalidHexCharacter { c, index }) <==> {
            &&& text.len() % 2 == 0
            &&& index < text.len()
            &&& !is_digit(text[index as int])
            &&& c as int == text[index as int]
            &&& forall|i: int| 0 <= i < index ==> is_digit(#[trigger] text[i])
        },
        is_hex(text) <==> text.len() % 2 == 0 && forall|i: int|
            0 <= i < text.len() ==> is_digit(#[trigger] text[i]),
        is_hex(text) ==> !hex_refused(text, HexError::OddLength) && !hex_refused(
            text,
            HexError::InvalidHexCharacter { c, index },
        ),
{
    assert forall|b: u8| is_digit(b) <==> #[trigger] digit_value(b) is Some by {}
    if is_hex(text) && index < text.len() {
        assert(digit_value(text[index as int]) is Some);
    }
    if forall|i: int| 0 <= i < text.len() ==> is_digit(#[trigger] text[i]) {
        assert forall|i: int| 0 <= i < text.len() implies (#[trigger] digit_value(
            text[i],
        )) is Some by {
            assert(is_digit(text[i]));
        }
    }
    if forall|i: int| 0 <= i < index ==> is_digit(#[trigger] text[i]) {
        assert forall|i: int| 0 <= i < index implies (#[trigger] digit_value(text[i])) is Some by {
            assert(is_digit(text[i]));
        }
    }
    assert forall|i: int| 0 <= i < text.len() && digit_value(text[i]) is Some implies is_digit(
        #[trigger] text[i],
    ) by {}
}

/// Whether a byte is a digit of either case: `0` to `9`, `A` to `F` or `a` to `f`.
pub open spec fn is_digit(b: u8) -> bool {
    (48 <= b && b <= 57) || (65 <= b && b <= 70) || (97 <= b && b <= 102)
}

} // verus!
