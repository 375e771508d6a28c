//! The ASCII validity rule, and the calls that enforce it.
use vstd::prelude::*;
use vstd::utf8::{
    char_is_scalar, decode_utf8, encode_scalar, encode_utf8, encode_utf8_decode_utf8,
    encode_utf8_valid_utf8, is_ascii_chars, is_ascii_chars_encode_utf8, valid_utf8,
};
use crate::utf8::codec::lemma_encode_concat;

verus! {

/// An error type which abstracts over ascii conversion errors.
#[derive(Debug, Clone, Copy, PartialEq, Eq, Structural)]
pub enum AsciiError {
    /// A character was not encoded as ascii.
    Char,
    /// A string was not encoded as ascii. Holds the index of its first
    /// non-ascii byte.
    Str(usize),
}

impl AsciiError {
    /// What went wrong, in words.
    pub fn description(&self) -> (text: &'static str)
        ensures
            text@ == match self {
                AsciiError::Char => "could not convert character to ascii"@,
                AsciiError::Str(_) => "could not convert string to ascii"@,
            },
    {
        match self {
            AsciiError::Char => "could not convert character to ascii",
            AsciiError::Str(_) => "could not convert string to ascii",
        }
    }
}

/// Whether every unit of `units` is a 7-bit ASCII code point.
pub open spec fn all_ascii(units: Seq<u8>) -> bool {
    forall|i: int| 0 <= i < units.len() ==> #[trigger] units[i] < 0x80
}

/// Whether `index` is the place of the first unit of `units` that is not ASCII.
pub open spec fn first_non_ascii(units: Seq<u8>, index: int) -> bool {
    &&& 0 <= index < units.len()
    &&& units[index] >= 0x80
    &&& all_ascii(units.subrange(0, index))
}

/// Whether `ch` is an ASCII character.
pub open spec fn is_ascii_char(ch: char) -> bool {
    '\0' <= ch <= '\u{7f}'
}

/// Whether `index` is the place of the first character of `chars` that is
/// not ASCII.
pub open spec fn first_non_ascii_char(chars: Seq<char>, index: int) -> bool {
    &&& 0 <= index < chars.len()
    &&& !is_ascii_char(chars[index])
    &&& forall|i: int| 0 <= i < index ==> is_ascii_char(#[trigger] chars[i])
}

/// The code unit of an ASCII character: its code point.
pub open spec fn unit_of(ch: char) -> u8
    recommends
        is_ascii_char(ch),
{
    ch as u8
}

/// The characters that `units` spell, one for each unit.
pub open spec fn units_as_chars(units: Seq<u8>) -> Seq<char> {
    Seq::new(units.len(), |i: int| units[i] as char)
}

/// The units that spell `chars`, one for each character.
pub open spec fn chars_as_units(chars: Seq<char>) -> Seq<u8> {
    Seq::new(chars.len(), |i: int| unit_of(chars[i]))
}

/// The upper-case form of `unit`: the letters `a` to `z` become `A` to `Z`,
/// and every other unit stays.
pub open spec fn to_upper(unit: u8) -> u8 {
    if 0x61 <= unit <= 0x7a {
        (unit - 0x20) as u8
    } else {
        unit
    }
}

/// The lower-case form of `unit`: the letters `A` to `Z` become `a` to `z`,
/// and every other unit stays.
pub open spec fn to_lower(unit: u8) -> u8 {
    if 0x41 <= unit <= 0x5a {
        (unit + 0x20) as u8
    } else {
        unit
    }
}

/// `units` with each unit in its upper-case form.
pub open spec fn upper_of(units: Seq<u8>) -> Seq<u8> {
    Seq::new(units.len(), |i: int| to_upper(units[i]))
}

/// `units` with each unit in its lower-case form.
pub open spec fn lower_of(units: Seq<u8>) -> Seq<u8> {
    Seq::new(units.len(), |i: int| to_lower(units[i]))
}

/// Whether `a` and `b` are the same but for the case of their letters.
pub open spec fn same_ignoring_case(a: Seq<u8>, b: Seq<u8>) -> bool {
    lower_of(a) == lower_of(b)
}

/// The upper-case form of `unit`.
pub fn ascii_uppercase(unit: u8) -> (r: u8)
    ensures
        r == to_upper(unit),
        unit < 0x80 ==> r < 0x80,
{
    if 0x61 <= unit && unit <= 0x7a {
        unit - 0x20
    } else {
        unit
    }
}

/// The lower-case form of `unit`.
pub fn ascii_lowercase(unit: u8) -> (r: u8)
    ensures
        r == to_lower(unit),
        unit < 0x80 ==> r < 0x80,
{
    if 0x41 <= unit && unit <= 0x5a {
        unit + 0x20
    } else {
        unit
    }
}

/// Whether two strings are the same but for the case of their letters.
pub fn eq_ignore_case(a: &[u8], b: &[u8]) -> (r: bool)
    ensures
        r == same_ignoring_case(a@, b@),
{
    if a.len() != b.len() {
        assert(lower_of(a@).len() != lower_of(b@).len());
        return false;
    }
    let mut i: usize = 0;
    while i < a.len()
        invariant
            i <= a@.len() == b@.len(),
            forall|j: int| 0 <= j < i ==> to_lower(a@[j]) == to_lower(b@[j]),
        decreases a@.len() - i,
    {
        if ascii_lowercase(a[i]) != ascii_lowercase(b[i]) {
            assert(lower_of(a@)[i as int] != lower_of(b@)[i as int]);
            return false;
        }
        i += 1;
    }
    assert(lower_of(a@) =~= lower_of(b@));
    true
}

/// ASCII is a part of UTF-8: units that are all ASCII are valid UTF-8, and
/// are the encoding of the characters that they spell one by one.
pub proof fn lemma_ascii_is_utf8(units: Seq<u8>)
    requires
        all_ascii(units),
    ensures
        valid_utf8(units),
        encode_utf8(units_as_chars(units)) == units,
        decode_utf8(units) == units_as_chars(units),
{
    let chars = units_as_chars(units);
    assert(is_ascii_chars(chars)) by {
        assert forall|i: int| 0 <= i < chars.len() implies '\0' <= #[trigger] chars[i] <= '\u{7f}' by {
            assert(units[i] < 0x80);
        }
    }
    is_ascii_chars_encode_utf8(chars);
    assert(encode_utf8(chars) =~= units) by {
        assert forall|i: int| 0 <= i < units.len() implies encode_utf8(chars)[i] == units[i] by {
            assert(units[i] < 0x80);
            assert(chars[i] as u8 == encode_utf8(chars)[i]);
        }
    }
    encode_utf8_valid_utf8(chars);
    encode_utf8_decode_utf8(chars);
}

/// Characters that are all ASCII are encoded one unit each: their UTF-8
/// encoding is the sequence of their code points.
pub proof fn lemma_ascii_chars_units(chars: Seq<char>)
    requires
        is_ascii_chars(chars),
    ensures
        encode_utf8(chars) == chars_as_units(chars),
        all_ascii(chars_as_units(chars)),
{
    is_ascii_chars_encode_utf8(chars);
    assert(encode_utf8(chars) =~= chars_as_units(chars));
}

/// A character that is not ASCII is encoded with a first byte that is not
/// ASCII.
pub proof fn lemma_non_ascii_leading_byte(ch: char)
    requires
        !is_ascii_char(ch),
    ensures
        encode_scalar(ch as u32).len() >= 2,
        encode_scalar(ch as u32)[0] >= 0x80,
{
    char_is_scalar(ch);
    let scalar = ch as u32;
    assert(forall|low: u8| #![auto] (0xC0u8 | low) >= 0x80) by (bit_vector);
    assert(forall|low: u8| #![auto] (0xE0u8 | low) >= 0x80) by (bit_vector);
    assert(forall|low: u8| #![auto] (0xF0u8 | low) >= 0x80) by (bit_vector);
}

/// In text, the first character that is not ASCII stands where the first
/// byte that is not ASCII stands in the encoding of the text: the characters
/// before it take one byte each.
pub proof fn lemma_first_non_ascii_text(chars: Seq<char>, index: int)
    requires
        0 <= index < chars.len(),
        !is_ascii_char(chars[index]),
        forall|i: int| 0 <= i < index ==> is_ascii_char(#[trigger] chars[i]),
    ensures
        first_non_ascii(encode_utf8(chars), index),
{
    let before = chars.take(index);
    let rest = chars.skip(index);
    assert(chars =~= before + rest);
    lemma_encode_concat(before, rest);
    assert(is_ascii_chars(before)) by {
        assert forall|i: int| 0 <= i < before.len() implies '\0' <= #[trigger] before[i]
            <= '\u{7f}' by {
            assert(is_ascii_char(chars[i]));
        }
    }
    lemma_ascii_chars_units(before);
    lemma_non_ascii_leading_byte(rest[0]);
    assert(encode_utf8(rest) =~= encode_scalar(rest[0] as u32) + encode_utf8(rest.drop_first()));
    let bytes = encode_utf8(chars);
    assert(bytes[index] == encode_scalar(rest[0] as u32)[0]);
    assert(bytes.subrange(0, index) =~= chars_as_units(before));
}

/// Text that is not all ASCII has a first character that is not.
pub proof fn lemma_first_non_ascii_char_exists(chars: Seq<char>) -> (index: int)
    requires
        !is_ascii_chars(chars),
    ensures
        first_non_ascii_char(chars, index),
    decreases chars.len(),
{
    if chars.len() == 0 {
        0
    } else if !is_ascii_char(chars[0]) {
        0
    } else {
        let rest = chars.drop_first();
        if is_ascii_chars(rest) {
            assert forall|i: int| 0 <= i < chars.len() implies '\0' <= #[trigger] chars[i]
                <= '\u{7f}' by {
                if i > 0 {
                    assert('\0' <= rest[i - 1] <= '\u{7f}');
                }
            }
        }
        let index = lemma_first_non_ascii_char_exists(rest);
        assert forall|i: int| 0 <= i < index + 1 implies is_ascii_char(#[trigger] chars[i]) by {
            if i > 0 {
                assert(is_ascii_char(rest[i - 1]));
            }
        }
        index + 1
    }
}

/// At most one place is that of the first unit that is not ASCII.
pub proof fn lemma_first_non_ascii_unique(units: Seq<u8>, i: int, j: int)
    requires
        first_non_ascii(units, i),
        first_non_ascii(units, j),
    ensures
        i == j,
{
    if i < j {
        assert(units.subrange(0, j)[i] < 0x80);
    } else if j < i {
        assert(units.subrange(0, i)[j] < 0x80);
    }
}

/// Checks a byte slice with `ascii::AsciiStr::from_ascii`. That function
/// accepts the slice exactly when all of its bytes are below `0x80`, and
/// otherwise reports, through `AsAsciiStrError::valid_up_to`, the index of the
/// first byte that is not.
#[verifier::external_body]
pub(crate) fn check_ascii(bytes: &[u8]) -> (r: Result<(), usize>)
    ensures
        match r {
            Ok(()) => all_ascii(bytes@),
            Err(index) => first_non_ascii(bytes@, index as int),
        },
{
    match ::ascii::AsciiStr::from_ascii(bytes) {
        Ok(_) => Ok(()),
        Err(e) => Err(e.valid_up_to()),
    }
}

/// Converts a character with `ascii::AsciiChar::from_ascii`. That function
/// succeeds exactly on the code points `0x00` to `0x7f`, and the byte of the
/// `AsciiChar` it gives is the code point.
#[verifier::external_body]
pub(crate) fn to_ascii_unit(ch: char) -> (r: Option<u8>)
    ensures
        is_ascii_char(ch) ==> r == Some(unit_of(ch)),
        !is_ascii_char(ch) ==> r is None,
{
    match ::ascii::AsciiChar::from_ascii(ch) {
        Ok(unit) => Some(unit.as_byte()),
        Err(_) => None,
    }
}

} // verus!
