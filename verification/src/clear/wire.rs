//! Texts and truth values on the wire.
use vstd::prelude::*;
use vstd::utf8::{decode_utf8, encode_utf8, encode_utf8_decode_utf8, encode_utf8_valid_utf8, valid_utf8};

use fluvio_protocol::{Decoder, Encoder};

verus! {

#[verifier::external_type_specification]
#[verifier::external_body]
pub struct ExIoError(std::io::Error);

/// A number of 16 bits, the high byte first.
pub open spec fn two_bytes(n: int) -> Seq<u8> {
    Seq::<u8>::empty().push((n / 0x100) as u8).push((n % 0x100) as u8)
}

/// A text on the wire: the number of its bytes, as far as 16 bits hold it, and the bytes.
pub open spec fn text_bytes(s: Seq<char>) -> Seq<u8> {
    two_bytes(encode_utf8(s).len() as int % 0x1_0000) + encode_utf8(s)
}

/// A truth value on the wire.
pub open spec fn bool_byte(b: bool) -> Seq<u8> {
    Seq::<u8>::empty().push(
        if b {
            1u8
        } else {
            0u8
        },
    )
}

/// The length that stands before a text: a number of 16 bits with a sign, the high byte first.
pub open spec fn text_len(src: Seq<u8>) -> int {
    let n = src[0] * 0x100 + src[1];
    if n >= 0x8000 {
        n - 0x1_0000
    } else {
        n
    }
}

/// The text at the start of some bytes, and the bytes behind it. A length of zero or less stands for
/// the empty text.
pub open spec fn read_text(src: Seq<u8>) -> Option<(Seq<char>, Seq<u8>)> {
    if src.len() < 2 {
        None
    } else if text_len(src) <= 0 {
        Some((Seq::empty(), src.skip(2)))
    } else if src.len() < 2 + text_len(src) || !valid_utf8(src.subrange(2, 2 + text_len(src))) {
        None
    } else {
        Some((decode_utf8(src.subrange(2, 2 + text_len(src))), src.skip(2 + text_len(src))))
    }
}

/// The truth value at the start of some bytes, and the bytes behind it.
pub open spec fn read_bool(src: Seq<u8>) -> Option<(bool, Seq<u8>)> {
    if src.len() > 0 && src[0] <= 1 {
        Some((src[0] == 1, src.skip(1)))
    } else {
        None
    }
}

/// Calls `fluvio_protocol::Encoder::encode` on a `String`. Claims that the text is written behind
/// what was there, and that this works as long as a vector can hold it.
#[verifier::external_body]
pub(crate) fn encode_text(text: &String, dest: &mut Vec<u8>, version: i16) -> (r: Result<
    (),
    std::io::Error,
>)
    ensures
        r is Ok ==> final(dest)@ == old(dest)@ + text_bytes(text@),
        old(dest)@.len() + 2 + encode_utf8(text@).len() <= isize::MAX ==> r is Ok,
{
    text.encode(dest, version)
}

/// Calls `fluvio_protocol::Encoder::encode` on a `bool`. Claims that the value is written behind
/// what was there, and that this works as long as a vector can hold it.
#[verifier::external_body]
pub(crate) fn encode_bool(value: bool, dest: &mut Vec<u8>, version: i16) -> (r: Result<
    (),
    std::io::Error,
>)
    ensures
        r is Ok ==> final(dest)@ == old(dest)@ + bool_byte(value),
        old(dest)@.len() + 1 <= isize::MAX ==> r is Ok,
{
    value.encode(dest, version)
}

/// Calls `fluvio_protocol::Decoder::decode` on an empty `String`. Claims that it reads the text at
/// the start of the bytes, and fails exactly where there is none.
#[verifier::external_body]
pub(crate) fn decode_text(src: &[u8], version: i16) -> (r: Result<
    (String, Vec<u8>),
    std::io::Error,
>)
    ensures
        r is Ok <==> read_text(src@) is Some,
        r matches Ok(parts) ==> read_text(src@) == Some((parts.0@, parts.1@)),
{
    let mut rest = src;
    let mut text = String::default();
    text.decode(&mut rest, version)?;
    Ok((text, rest.to_vec()))
}

/// Calls `fluvio_protocol::Decoder::decode` on a `bool`. Claims that it reads the value at the start
/// of the bytes, and fails exactly where there is none.
#[verifier::external_body]
pub(crate) fn decode_bool(src: &[u8], version: i16) -> (r: Result<(bool, Vec<u8>), std::io::Error>)
    ensures
        r is Ok <==> read_bool(src@) is Some,
        r matches Ok(parts) ==> read_bool(src@) == Some((parts.0, parts.1@)),
{
    let mut rest = src;
    let mut value = false;
    value.decode(&mut rest, version)?;
    Ok((value, rest.to_vec()))
}

/// A text is read back as it was written, and what was written behind it is left: for texts whose
/// length fits the sign bit and 15 bits.
pub proof fn law_text_is_read_back(s: Seq<char>, rest: Seq<u8>)
    requires
        encode_utf8(s).len() <= i16::MAX,
    ensures
        read_text(text_bytes(s) + rest) == Some((s, rest)),
{
    let bytes = encode_utf8(s);
    let n = bytes.len() as int;
    let src = text_bytes(s) + rest;
    assert(src[0] == (n / 0x100) as u8);
    assert(src[1] == (n % 0x100) as u8);
    assert(text_len(src) == n);
    encode_utf8_valid_utf8(s);
    encode_utf8_decode_utf8(s);
    assert(src.subrange(2, 2 + n) =~= bytes);
    assert(src.skip(2 + n) =~= rest);
    if n == 0 {
        assert(bytes =~= Seq::empty());
        assert(decode_utf8(bytes) == s);
        assert(s =~= Seq::empty());
    }
}

/// A truth value is read back as it was written.
pub proof fn law_bool_is_read_back(b: bool, rest: Seq<u8>)
    ensures
        read_bool(bool_byte(b) + rest) == Some((b, rest)),
{
    assert((bool_byte(b) + rest).skip(1) =~= rest);
}

/// A truth value is one byte, one or zero. No other byte is one, and neither are no bytes.
pub proof fn law_truth_value_is_one_byte(byte: u8, rest: Seq<u8>)
    ensures
        read_bool(seq![byte] + rest) == (if byte == 0 {
            Some((false, rest))
        } else if byte == 1 {
            Some((true, rest))
        } else {
            None
        }),
        read_bool(Seq::empty()) is None,
{
    assert((seq![byte] + rest).skip(1) =~= rest);
}

/// A text needs the two bytes of its length and as many bytes as that says. A length of zero, or one
/// with its sign bit set, stands for the empty text.
pub proof fn law_text_needs_its_bytes(high: u8, low: u8, rest: Seq<u8>)
    ensures
        read_text(Seq::empty()) is None,
        read_text(seq![high]) is None,
        high >= 0x80 || (high == 0 && low == 0) ==> read_text(seq![high, low] + rest) == Some(
            (Seq::<char>::empty(), rest),
        ),
        high < 0x80 && rest.len() < high * 0x100 + low ==> read_text(seq![high, low] + rest) is None,
{
    let src = seq![high, low] + rest;
    assert(src.skip(2) =~= rest);
    assert(src[0] == high && src[1] == low);
}

} // verus!
