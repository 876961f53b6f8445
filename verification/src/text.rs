//! Text fields of the wire format: padded with NUL bytes, carried as bytes,
//! handed on as strings.

use vstd::prelude::*;
use vstd::utf8::{
    decode_utf8, encode_utf8, encode_utf8_decode_utf8, encode_utf8_valid_utf8, is_ascii_chars,
    is_ascii_chars_encode_utf8, valid_utf8,
};

verus! {

/// `bytes` without the NUL bytes at its end.
pub open spec fn trim_trailing_nuls(bytes: Seq<u8>) -> Seq<u8>
    decreases bytes.len(),
{
    if bytes.len() > 0 && bytes.last() == 0 {
        trim_trailing_nuls(bytes.drop_last())
    } else {
        bytes
    }
}

/// Every byte is below 128.
pub open spec fn seven_bit(bytes: Seq<u8>) -> bool {
    forall|i: int| 0 <= i < bytes.len() ==> #[trigger] bytes[i] < 128
}

/// Each byte as the character with that code.
pub open spec fn ascii_text(bytes: Seq<u8>) -> Seq<char> {
    bytes.map_values(|b: u8| b as char)
}

/// Seven-bit bytes are valid UTF-8, one character per byte.
pub proof fn lemma_seven_bit_is_text(bytes: Seq<u8>)
    requires
        seven_bit(bytes),
    ensures
        valid_utf8(bytes),
        decode_utf8(bytes) == ascii_text(bytes),
{
    let chars = ascii_text(bytes);
    assert(is_ascii_chars(chars)) by {
        assert forall|i: int| 0 <= i < chars.len() implies '\0' <= #[trigger] chars[i]
            <= '\u{7f}' by {
            assert(bytes[i] < 128);
        }
    }
    is_ascii_chars_encode_utf8(chars);
    assert(encode_utf8(chars) =~= bytes) by {
        assert forall|i: int| 0 <= i < bytes.len() implies encode_utf8(chars)[i] == bytes[i] by {
            assert(bytes[i] < 128);
            assert(chars[i] as u8 == encode_utf8(chars)[i]);
        }
    }
    encode_utf8_valid_utf8(chars);
    encode_utf8_decode_utf8(chars);
}

/// `String::from_utf8` of the standard library: the bytes become a string
/// exactly when they are valid UTF-8, and the string then holds the
/// characters that the bytes encode.
#[verifier::external_body]
fn string_from_utf8(bytes: Vec<u8>) -> (r: Option<String>)
    ensures
        r is Some <==> valid_utf8(bytes@),
        r is Some ==> r->0@ == decode_utf8(bytes@),
{
    match String::from_utf8(bytes) {
        Ok(s) => Some(s),
        Err(_) => None,
    }
}

/// Turns a received text field into a string: the NUL padding at its end is
/// dropped, the rest is decoded as UTF-8. Bytes that are not valid UTF-8
/// give `None`; seven-bit bytes always decode, one character per byte.
pub fn decode_text(bytes: Vec<u8>) -> (r: Option<String>)
    ensures
        r is Some <==> valid_utf8(trim_trailing_nuls(bytes@)),
        r is Some ==> r->0@ == decode_utf8(trim_trailing_nuls(bytes@)),
        seven_bit(bytes@) ==> r is Some && r->0@ == ascii_text(trim_trailing_nuls(bytes@)),
{
    let mut bytes = bytes;
    let ghost all = bytes@;
    let mut n: usize = bytes.len();
    assert(all.take(n as int) =~= all);
    while n > 0 && bytes[n - 1] == 0
        invariant
            n <= bytes@.len(),
            bytes@ == all,
            trim_trailing_nuls(all) == trim_trailing_nuls(all.take(n as int)),
        decreases n,
    {
        assert(all.take(n as int).drop_last() =~= all.take(n - 1));
        n = n - 1;
    }
    bytes.truncate(n);
    proof {
        assert(bytes@ =~= all.take(n as int));
        assert(trim_trailing_nuls(all) == bytes@);
        if seven_bit(all) {
            lemma_seven_bit_is_text(bytes@);
        }
    }
    string_from_utf8(bytes)
}

} // verus!
