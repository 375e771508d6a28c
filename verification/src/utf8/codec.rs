//! The calls that encode and decode UTF-8.
use vstd::prelude::*;
use vstd::string::StringSliceAdditionalSpecFns;
use vstd::utf8::{
    decode_utf8, decode_utf8_encode_utf8, encode_scalar, encode_utf8, encode_utf8_decode_utf8,
    encode_utf8_valid_utf8, length_of_first_scalar, pop_first_scalar, valid_first_scalar,
    valid_utf8,
};

verus! {

/// The error of `odds::char::encode_utf8`: the buffer was too short for the
/// character.
#[verifier::external_type_specification]
#[verifier::external_body]
pub struct ExEncodeUtf8Error(odds::char::EncodeUtf8Error);

/// `odds::char::encode_utf8` writes the UTF-8 encoding of `ch`, one to four
/// bytes, at the front of `buf` and returns its length; the bytes of `buf`
/// after it stay. Where `buf` is shorter than the encoding, it returns the
/// error and writes nothing.
pub assume_specification[ odds::char::encode_utf8 ](ch: char, buf: &mut [u8]) -> (r: Result<
    usize,
    odds::char::EncodeUtf8Error,
>)
    ensures
        match r {
            Ok(n) => {
                &&& n == encode_scalar(ch as u32).len()
                &&& n <= old(buf)@.len()
                &&& final(buf)@ == encode_scalar(ch as u32) + old(buf)@.subrange(
                    n as int,
                    old(buf)@.len() as int,
                )
            },
            Err(_) => {
                &&& old(buf)@.len() < encode_scalar(ch as u32).len()
                &&& final(buf)@ == old(buf)@
            },
        },
;

/// The encoding of one character: its scalar value in UTF-8, one to four
/// bytes.
pub open spec fn encode_char(ch: char) -> Seq<u8> {
    encode_scalar(ch as u32)
}

/// Text is encoded piece by piece: the encoding of `a + b` is that of `a`
/// followed by that of `b`.
pub proof fn lemma_encode_concat(a: Seq<char>, b: Seq<char>)
    ensures
        encode_utf8(a + b) == encode_utf8(a) + encode_utf8(b),
    decreases a.len(),
{
    if a.len() == 0 {
        assert(a + b =~= b);
        assert(encode_utf8(a) + encode_utf8(b) =~= encode_utf8(b));
    } else {
        lemma_encode_concat(a.drop_first(), b);
        assert((a + b).drop_first() =~= a.drop_first() + b);
        assert(encode_utf8(a + b) =~= encode_utf8(a) + encode_utf8(b));
    }
}

/// The encoding of text with one more character is the encoding of the
/// text followed by that of the character.
pub proof fn lemma_encode_push(a: Seq<char>, ch: char)
    ensures
        encode_utf8(a.push(ch)) == encode_utf8(a) + encode_char(ch),
{
    let one = seq![ch];
    assert(encode_utf8(one) =~= encode_char(ch)) by {
        assert(one.drop_first() =~= Seq::<char>::empty());
        assert(encode_utf8(one.drop_first()) =~= Seq::<u8>::empty());
    }
    assert(a.push(ch) =~= a + one);
    lemma_encode_concat(a, one);
}

/// Valid UTF-8 followed by the encoding of a character is valid UTF-8, and
/// spells the same text with that character after it.
pub proof fn lemma_decode_push(bytes: Seq<u8>, ch: char)
    requires
        valid_utf8(bytes),
    ensures
        valid_utf8(bytes + encode_char(ch)),
        decode_utf8(bytes + encode_char(ch)) == decode_utf8(bytes).push(ch),
{
    let text = decode_utf8(bytes);
    decode_utf8_encode_utf8(bytes);
    lemma_encode_push(text, ch);
    encode_utf8_valid_utf8(text.push(ch));
    encode_utf8_decode_utf8(text.push(ch));
}

/// A character takes one to four bytes.
pub proof fn lemma_encode_char_len(ch: char)
    ensures
        1 <= encode_char(ch).len() <= 4,
{
}

/// Bytes that are changed only where they are ASCII, and there into ASCII,
/// stay valid UTF-8: every character that takes more than one byte is left
/// alone, and every character of one byte stays one.
pub proof fn lemma_ascii_change_keeps_utf8(bytes: Seq<u8>, changed: Seq<u8>)
    requires
        valid_utf8(bytes),
        changed.len() == bytes.len(),
        forall|i: int|
            0 <= i < bytes.len() ==> if bytes[i] < 0x80 {
                #[trigger] changed[i] < 0x80
            } else {
                changed[i] == bytes[i]
            },
    ensures
        valid_utf8(changed),
    decreases bytes.len(),
{
    if bytes.len() > 0 {
        let width = length_of_first_scalar(bytes);
        assert(1 <= width <= bytes.len());
        assert(changed[0] < 0x80 || changed[0] == bytes[0]);
        if bytes[0] < 0x80 {
            let first = changed[0];
            assert(first < 0x80);
            assert((first & 0x7F) as u32 <= 0x7F) by (bit_vector);
            assert(valid_first_scalar(changed));
        } else {
            assert forall|i: int| 0 <= i < width implies changed[i] == bytes[i] by {
                assert(bytes[i] >= 0x80);
                assert(changed[i] < 0x80 || changed[i] == bytes[i]);
            }
            assert(valid_first_scalar(changed));
        }
        assert(length_of_first_scalar(changed) == width);
        let rest = pop_first_scalar(bytes);
        let changed_rest = pop_first_scalar(changed);
        assert forall|i: int| 0 <= i < rest.len() implies if rest[i] < 0x80 {
            #[trigger] changed_rest[i] < 0x80
        } else {
            changed_rest[i] == rest[i]
        } by {
            assert(rest[i] == bytes[i + width]);
            assert(changed_rest[i] == changed[i + width]);
            assert(changed[i + width] < 0x80 || changed[i + width] == bytes[i + width]);
        }
        lemma_ascii_change_keeps_utf8(rest, changed_rest);
    }
}

/// Reads bytes as text with `std::str::from_utf8`, which accepts them
/// exactly when they are valid UTF-8, and then gives the string that has
/// these bytes.
#[verifier::external_body]
pub(crate) fn str_from_utf8(bytes: &[u8]) -> (r: Option<&str>)
    ensures
        r is Some <==> valid_utf8(bytes@),
        r matches Some(s) ==> s.spec_bytes() == bytes@,
{
    match std::str::from_utf8(bytes) {
        Ok(text) => Some(text),
        Err(_) => None,
    }
}

} // verus!
