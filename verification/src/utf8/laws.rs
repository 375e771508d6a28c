//! What holds of the UTF-8 strings whatever they hold.
use vstd::prelude::*;
use vstd::utf8::encode_utf8;
use crate::utf8::codec::lemma_encode_char_len;
use crate::utf8::pascal_string::{
    create_post, push_spec, PascalString, PascalStringAppendError, PascalStringCreateError,
};
use crate::PASCAL_STRING_BUF_SIZE;

verus! {

/// What pushing `chars` one after the other onto a string whose bytes are
/// `bytes` comes to, where every push has to succeed: the new bytes, or the
/// error of the first push that is refused.
pub open spec fn push_all(bytes: Seq<u8>, chars: Seq<char>) -> Result<
    Seq<u8>,
    PascalStringAppendError,
>
    decreases chars.len(),
{
    if chars.len() == 0 {
        Ok(bytes)
    } else {
        match push_spec(bytes, chars[0]) {
            Ok(longer) => push_all(longer, chars.drop_first()),
            Err(e) => Err(e),
        }
    }
}

/// Pushes that all succeed add at least one byte each.
pub proof fn lemma_push_all_len(bytes: Seq<u8>, chars: Seq<char>)
    requires
        bytes.len() <= PASCAL_STRING_BUF_SIZE,
        push_all(bytes, chars) is Ok,
    ensures
        bytes.len() + chars.len() <= push_all(bytes, chars)->Ok_0.len() <= PASCAL_STRING_BUF_SIZE,
    decreases chars.len(),
{
    if chars.len() > 0 {
        lemma_encode_char_len(chars[0]);
        lemma_push_all_len(push_spec(bytes, chars[0])->Ok_0, chars.drop_first());
    }
}

/// Round trip: the text of a string makes a string of the same text and the
/// same bytes, which is equal to it.
pub proof fn lemma_round_trip(x: PascalString, r: Result<PascalString, PascalStringCreateError>)
    requires
        x.wf(),
        create_post(x@, r),
    ensures
        r is Ok,
        r->Ok_0@ == x@,
        r->Ok_0.spec_bytes() == x.spec_bytes(),
{
    x.lemma_wf();
}

/// Round trip: text that takes at most 255 bytes makes a string, and that
/// string gives the text back.
pub proof fn lemma_round_trip_text(text: Seq<char>, r: Result<PascalString, PascalStringCreateError>)
    requires
        encode_utf8(text).len() <= PASCAL_STRING_BUF_SIZE,
        create_post(text, r),
    ensures
        r is Ok,
        r->Ok_0@ == text,
        r->Ok_0.spec_bytes() == encode_utf8(text),
{
}

/// Capacity: after 255 pushes onto an empty string that all succeeded, the
/// string is full, and every further push is refused with `NoRoom`.
pub proof fn lemma_capacity(chars: Seq<char>, next: char)
    requires
        chars.len() == PASCAL_STRING_BUF_SIZE,
        push_all(Seq::<u8>::empty(), chars) is Ok,
    ensures
        push_all(Seq::<u8>::empty(), chars)->Ok_0.len() == PASCAL_STRING_BUF_SIZE,
        push_spec(push_all(Seq::<u8>::empty(), chars)->Ok_0, next) == Err::<
            Seq<u8>,
            PascalStringAppendError,
        >(PascalStringAppendError::NoRoom),
{
    lemma_push_all_len(Seq::<u8>::empty(), chars);
    lemma_encode_char_len(next);
}

} // verus!
