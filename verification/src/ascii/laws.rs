//! What holds of the ASCII strings whatever they hold.
use std::borrow::Cow;
use vstd::prelude::*;
use crate::ascii::codec::{all_ascii, is_ascii_char};
use crate::ascii::pascal_str::{as_cstr_post, first_null, null_terminated, InteriorNullError};
use crate::ascii::pascal_string::{
    create_post, push_spec, PascalString, PascalStringAppendError, PascalStringCreateError,
};
use crate::PASCAL_STRING_BUF_SIZE;

verus! {

/// What pushing `chars` one after the other onto a string that holds
/// `content` comes to, where every push has to succeed: the new content, or
/// the error of the first push that is refused.
pub open spec fn push_all(content: Seq<u8>, chars: Seq<char>) -> Result<
    Seq<u8>,
    PascalStringAppendError,
>
    decreases chars.len(),
{
    if chars.len() == 0 {
        Ok(content)
    } else {
        match push_spec(content, chars[0]) {
            Ok(longer) => push_all(longer, chars.drop_first()),
            Err(e) => Err(e),
        }
    }
}

/// Pushes that all succeed add one unit each.
pub proof fn lemma_push_all_len(content: Seq<u8>, chars: Seq<char>)
    requires
        push_all(content, chars) is Ok,
    ensures
        push_all(content, chars)->Ok_0.len() == content.len() + chars.len(),
    decreases chars.len(),
{
    if chars.len() > 0 {
        lemma_push_all_len(push_spec(content, chars[0])->Ok_0, chars.drop_first());
    }
}

/// Round trip: the bytes of a string make a string, which holds the same
/// characters and so is equal to it.
pub proof fn lemma_round_trip(x: PascalString, r: Result<PascalString, PascalStringCreateError>)
    requires
        x.wf(),
        create_post(x@, r),
    ensures
        r is Ok,
        r->Ok_0@ == x@,
{
    x.lemma_wf();
}

/// Round trip: bytes that fit and are ASCII make a string, and that string
/// gives the bytes back.
pub proof fn lemma_round_trip_bytes(
    bytes: Seq<u8>,
    r: Result<PascalString, PascalStringCreateError>,
)
    requires
        bytes.len() <= PASCAL_STRING_BUF_SIZE,
        all_ascii(bytes),
        create_post(bytes, r),
    ensures
        r is Ok,
        r->Ok_0@ == bytes,
{
    if r is Err {
        let e = r->Err_0;
        if let PascalStringCreateError::NotValidAscii(crate::ascii::AsciiError::Str(index)) = e {
            assert(bytes[index as int] < 0x80);
        }
    }
}

/// Capacity: after 255 pushes onto an empty string that all succeeded, the
/// string is full, and every further push, whatever the character, is
/// refused with `NoRoom`.
pub proof fn lemma_capacity(chars: Seq<char>, next: char)
    requires
        chars.len() == PASCAL_STRING_BUF_SIZE,
        push_all(Seq::<u8>::empty(), chars) is Ok,
    ensures
        push_all(Seq::<u8>::empty(), chars)->Ok_0.len() == PASCAL_STRING_BUF_SIZE,
        push_spec(push_all(Seq::<u8>::empty(), chars)->Ok_0, next) == Err::<
            Seq<u8>,
            PascalStringAppendError,
        >(PascalStringAppendError::NoRoom),
{
    lemma_push_all_len(Seq::<u8>::empty(), chars);
}

/// Any 255 ASCII characters can be pushed onto an empty string, one after
/// the other.
pub proof fn lemma_capacity_reached(content: Seq<u8>, chars: Seq<char>)
    requires
        content.len() + chars.len() <= PASCAL_STRING_BUF_SIZE,
        forall|i: int| 0 <= i < chars.len() ==> is_ascii_char(#[trigger] chars[i]),
    ensures
        push_all(content, chars) is Ok,
    decreases chars.len(),
{
    if chars.len() > 0 {
        assert(is_ascii_char(chars[0]));
        let rest = chars.drop_first();
        assert forall|i: int| 0 <= i < rest.len() implies is_ascii_char(#[trigger] rest[i]) by {
            assert(is_ascii_char(chars[i + 1]));
        }
        lemma_capacity_reached(push_spec(content, chars[0])->Ok_0, rest);
    }
}

/// At most one place is that of the first null.
pub proof fn lemma_first_null_unique(units: Seq<u8>, i: int, j: int)
    requires
        first_null(units, i),
        first_null(units, j),
    ensures
        i == j,
{
    if i < j {
        assert(units[i] != 0);
    } else if j < i {
        assert(units[j] != 0);
    }
}

/// Which way the conversion to null-terminated bytes goes, for a string
/// that holds `units`, `null_follows` saying whether its storage keeps a
/// null after them, as every string that is not full does.
///
/// - A null before the last place is an error that names the place of the
///   first null.
/// - Without any null, and with a null following, the result is borrowed:
///   the units and the null after them.
/// - Without any null, and with none following, as in a full string, the
///   result is a fresh copy of the units with a null after them.
/// - Where the only null is the last unit, the result is borrowed: the units
///   themselves.
pub proof fn lemma_conversion_paths(
    units: Seq<u8>,
    null_follows: bool,
    r: Result<Cow<'_, [u8]>, InteriorNullError>,
)
    requires
        as_cstr_post(units, null_follows, r),
    ensures
        forall|i: int|
            first_null(units, i) && i != units.len() - 1 ==> r is Err
                && r->Err_0.interior_null_index() == i,
        (forall|i: int| 0 <= i < units.len() ==> units[i] != 0) && null_follows ==> r is Ok
            && r->Ok_0 is Borrowed && r->Ok_0@ == units.push(0u8),
        (forall|i: int| 0 <= i < units.len() ==> units[i] != 0) && !null_follows ==> r is Ok
            && r->Ok_0 is Owned && r->Ok_0@ == units.push(0u8),
        first_null(units, units.len() - 1) ==> r is Ok && r->Ok_0 is Borrowed && r->Ok_0@
            == units,
{
    assert forall|i: int| first_null(units, i) && i != units.len() - 1 implies r is Err
        && r->Err_0.interior_null_index() == i by {
        if r is Err {
            lemma_first_null_unique(units, i, r->Err_0.interior_null_index() as int);
        }
    }
    if r is Err {
        let at = r->Err_0.interior_null_index() as int;
        assert(units[at] == 0);
        if first_null(units, units.len() - 1) {
            lemma_first_null_unique(units, at, units.len() - 1);
        }
    }
}

} // verus!
