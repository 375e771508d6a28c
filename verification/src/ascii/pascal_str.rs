//! The borrowed ASCII string, and the iterators over it.
use std::borrow::Cow;
use vstd::prelude::*;
use vstd::string::StringSliceAdditionalSpecFns;
use crate::ascii::codec::{
    all_ascii, check_ascii, eq_ignore_case, first_non_ascii, lemma_ascii_is_utf8, lower_of,
    same_ignoring_case, units_as_chars, upper_of, AsciiError,
};
use crate::ascii::pascal_string::{PascalString, PascalStringCreateError};
use crate::lines::{
    after_first_line, lemma_line_len, lemma_line_len_is, line_len, split_lines, LINE_FEED,
};
use crate::utf8::codec::str_from_utf8;
use crate::PASCAL_STRING_BUF_SIZE;

verus! {

/// The error of `as_cstr`: a null stands in the string before its last
/// place.
#[derive(Clone, Copy, Debug, PartialEq, Eq, Structural, Hash)]
pub struct InteriorNullError(usize);

impl InteriorNullError {
    /// The place of the first null of the string.
    pub closed spec fn spec_interior_null_index(&self) -> usize {
        self.0
    }

    /// The place of the first null of the string.
    #[verifier::when_used_as_spec(spec_interior_null_index)]
    pub fn interior_null_index(&self) -> (index: usize)
        ensures
            index == self.spec_interior_null_index(),
    {
        self.0
    }

    /// What went wrong, in words.
    pub fn description(&self) -> (text: &'static str)
        ensures
            text@ == "an interior null was found when creating a CStr from a pascal string"@,
    {
        "an interior null was found when creating a CStr from a pascal string"
    }
}

/// Whether `index` is the place of the first null among `units`.
pub open spec fn first_null(units: Seq<u8>, index: int) -> bool {
    &&& 0 <= index < units.len()
    &&& units[index] == 0
    &&& forall|i: int| 0 <= i < index ==> #[trigger] units[i] != 0
}

/// `units` as a null-terminated sequence: `units` themselves where their
/// last is a null, and else `units` with a null after them.
pub open spec fn null_terminated(units: Seq<u8>) -> Seq<u8> {
    if units.len() > 0 && units.last() == 0 {
        units
    } else {
        units.push(0u8)
    }
}

/// Whether `r` is the null-terminated form that a string holding `units` has
/// to give, where `null_follows` says whether the storage behind the string
/// keeps a null right after `units`.
///
/// A null before the last place is an error, which names the first null.
/// Otherwise the result is `null_terminated(units)`. It is borrowed from the
/// storage whenever the storage holds it: where `units` end in a null, or a
/// null follows them. Only where neither holds it is a fresh copy.
pub open spec fn as_cstr_post(
    units: Seq<u8>,
    null_follows: bool,
    r: Result<Cow<'_, [u8]>, InteriorNullError>,
) -> bool {
    match r {
        Err(e) => {
            &&& first_null(units, e.interior_null_index() as int)
            &&& e.interior_null_index() != units.len() - 1
        },
        Ok(bytes) => {
            &&& forall|i: int| first_null(units, i) ==> i == units.len() - 1
            &&& bytes@ == null_terminated(units)
            &&& (bytes is Owned) == (!null_follows && !(units.len() > 0 && units.last() == 0))
        },
    }
}

/// A borrowed slice from a `PascalString`. Does not own its data.
#[derive(Clone, Copy, Debug)]
pub struct PascalStr<'a> {
    /// The viewed units, and after them the null that the storage keeps
    /// there, where it keeps one.
    units: &'a [u8],
    /// How many of `units` are viewed.
    len: usize,
}

impl<'a> View for PascalStr<'a> {
    type V = Seq<u8>;

    /// The viewed units, in order.
    closed spec fn view(&self) -> Seq<u8> {
        self.units@.subrange(0, self.len as int)
    }
}

impl<'a> PascalStr<'a> {
    /// What holds of every `PascalStr`: it views at most 255 units, all of
    /// them ASCII.
    pub closed spec fn wf(&self) -> bool {
        &&& self.len <= PASCAL_STRING_BUF_SIZE
        &&& self.len <= self.units@.len() <= self.len + 1
        &&& forall|i: int| 0 <= i < self.len ==> #[trigger] self.units@[i] < 0x80
        &&& self.units@.len() > self.len ==> self.units@[self.len as int] == 0
    }

    #[verifier::type_invariant]
    spec fn well_formed(self) -> bool {
        self.wf()
    }

    /// Whether the storage behind this view keeps a null right after the
    /// viewed units, so that they can be lent out null-terminated.
    pub closed spec fn null_follows(&self) -> bool {
        self.units@.len() > self.len
    }

    /// What `wf` says over the public model.
    pub proof fn lemma_wf(self)
        requires
            self.wf(),
        ensures
            self@.len() <= PASCAL_STRING_BUF_SIZE,
            all_ascii(self@),
    {
    }

    /// Views `units` and, where `null_follows`, the null after them.
    pub(crate) fn new(units: &'a [u8], len: usize) -> (s: Self)
        requires
            len <= PASCAL_STRING_BUF_SIZE,
            len <= units@.len() <= len + 1,
            all_ascii(units@.subrange(0, len as int)),
            units@.len() > len ==> units@[len as int] == 0,
        ensures
            s@ == units@.subrange(0, len as int),
            s.null_follows() == (units@.len() > len),
            s.wf(),
    {
        assert forall|i: int| 0 <= i < len implies #[trigger] units@[i] < 0x80 by {
            assert(units@.subrange(0, len as int)[i] < 0x80);
        }
        PascalStr { units, len }
    }

    /// Views `bytes` as a Pascal string, after checking them.
    ///
    /// Returns an `Err` if `bytes` is longer than 255 characters, or it does not contain
    /// Ascii encoded characters.
    pub fn from_bytes(bytes: &'a [u8]) -> (r: Result<Self, PascalStringCreateError>)
        ensures
            match r {
                Ok(s) => {
                    &&& bytes@.len() <= PASCAL_STRING_BUF_SIZE
                    &&& all_ascii(bytes@)
                    &&& s@ == bytes@
                    &&& !s.null_follows()
                    &&& s.wf()
                },
                Err(PascalStringCreateError::InputTooLong) => bytes@.len() > PASCAL_STRING_BUF_SIZE,
                Err(PascalStringCreateError::NotValidAscii(AsciiError::Str(index))) => {
                    bytes@.len() <= PASCAL_STRING_BUF_SIZE && first_non_ascii(bytes@, index as int)
                },
                Err(PascalStringCreateError::NotValidAscii(AsciiError::Char)) => false,
            },
    {
        if bytes.len() > PASCAL_STRING_BUF_SIZE {
            return Err(PascalStringCreateError::InputTooLong);
        }
        match check_ascii(bytes) {
            Ok(()) => {},
            Err(index) => {
                return Err(PascalStringCreateError::NotValidAscii(AsciiError::Str(index)));
            },
        }
        assert(bytes@.subrange(0, bytes@.len() as int) =~= bytes@);
        Ok(PascalStr::new(bytes, bytes.len()))
    }

    /// Returns the number of characters used in the string.
    pub fn len(&self) -> (n: usize)
        ensures
            n == self@.len(),
            n <= PASCAL_STRING_BUF_SIZE,
            self.wf(),
    {
        proof {
            use_type_invariant(self);
        }
        self.len
    }

    /// Returns true if the string has a length of 0
    pub fn is_empty(&self) -> (b: bool)
        ensures
            b == (self@.len() == 0),
    {
        proof {
            use_type_invariant(self);
        }
        self.len == 0
    }

    /// Returns true if the string has a length of 255.
    ///
    /// When this value is true, no more elements can be pushed onto the string.
    pub fn is_full(&self) -> (b: bool)
        ensures
            b == (self@.len() == PASCAL_STRING_BUF_SIZE),
    {
        proof {
            use_type_invariant(self);
        }
        self.len == PASCAL_STRING_BUF_SIZE
    }

    /// Get the `PascalStr` as its bytes.
    pub fn as_bytes(&self) -> (bytes: &'a [u8])
        ensures
            bytes@ == self@,
            bytes@.len() <= PASCAL_STRING_BUF_SIZE,
            all_ascii(bytes@),
    {
        proof {
            use_type_invariant(self);
        }
        let units: &'a [u8] = self.units;
        &units[0..self.len]
    }

    /// Get the `PascalStr` as an immutable `&str` reference.
    pub fn as_str(&self) -> (text: &'a str)
        ensures
            text@ == units_as_chars(self@),
            text.spec_bytes() == self@,
    {
        let bytes = self.as_bytes();
        proof {
            lemma_ascii_is_utf8(bytes@);
        }
        let text = str_from_utf8(bytes).unwrap();
        proof {
            vstd::utf8::encode_utf8_decode_utf8(text@);
        }
        text
    }

    /// Copies the string into a `PascalString` of its own.
    pub fn to_owned(&self) -> (owned: PascalString)
        ensures
            owned@ == self@,
            owned.wf(),
    {
        let r = PascalString::from(self.as_bytes());
        r.unwrap()
    }

    /// Whether the string is ascii: it always is.
    pub fn is_ascii(&self) -> (b: bool)
        ensures
            b,
            all_ascii(self@),
    {
        proof {
            use_type_invariant(self);
        }
        true
    }

    /// A copy of the string with its letters in upper case.
    pub fn to_ascii_uppercase(&self) -> (upper: PascalString)
        ensures
            upper@ == upper_of(self@),
            upper.wf(),
    {
        let mut upper = self.to_owned();
        upper.make_ascii_uppercase();
        upper
    }

    /// A copy of the string with its letters in lower case.
    pub fn to_ascii_lowercase(&self) -> (lower: PascalString)
        ensures
            lower@ == lower_of(self@),
            lower.wf(),
    {
        let mut lower = self.to_owned();
        lower.make_ascii_lowercase();
        lower
    }

    /// Whether the two strings are the same but for the case of their
    /// letters.
    pub fn eq_ignore_ascii_case(&self, other: &PascalStr<'_>) -> (b: bool)
        ensures
            b == same_ignoring_case(self@, other@),
    {
        eq_ignore_case(self.as_bytes(), other.as_bytes())
    }

    /// Get this string as the bytes of a C string: null-terminated, with no
    /// null before the end.
    ///
    /// Returns `Err(InteriorNullError)` if the string contains any interior nulls. The bytes are
    /// borrowed wherever the storage behind this string holds them. Where it
    /// does not, because no null ends the string and none follows it, as in
    /// a full `PascalString`, a new buffer is allocated to hold the trailing
    /// null byte.
    pub fn as_cstr(&self) -> (r: Result<Cow<'a, [u8]>, InteriorNullError>)
        ensures
            as_cstr_post(self@, self.null_follows(), r),
    {
        proof {
            use_type_invariant(self);
        }
        let units: &'a [u8] = self.units;
        let len = self.len;
        let mut pos: usize = 0;
        while pos < len && units[pos] != 0
            invariant
                pos <= len <= units@.len(),
                forall|i: int| 0 <= i < pos ==> #[trigger] units@[i] != 0,
            decreases len - pos,
        {
            pos += 1;
        }
        assert(forall|i: int| 0 <= i < pos ==> #[trigger] self@[i] != 0);
        if pos < len {
            assert(first_null(self@, pos as int));
            if pos != len - 1 {
                return Err(InteriorNullError(pos));
            }
            let bytes: &'a [u8] = &units[0..len];
            assert(bytes@ =~= null_terminated(self@));
            Ok(Cow::Borrowed(bytes))
        } else if units.len() > len {
            let bytes: &'a [u8] = &units[0..len + 1];
            assert(bytes@ =~= null_terminated(self@));
            Ok(Cow::Borrowed(bytes))
        } else {
            let mut copy: Vec<u8> = Vec::with_capacity(len + 1);
            let mut i: usize = 0;
            while i < len
                invariant
                    i <= len == units@.len(),
                    copy@ == units@.subrange(0, i as int),
                decreases len - i,
            {
                copy.push(units[i]);
                assert(copy@ =~= units@.subrange(0, i + 1));
                i += 1;
            }
            copy.push(0);
            assert(copy@ =~= null_terminated(self@));
            Ok(Cow::Owned(copy))
        }
    }

    /// Get an immutable iterator to the internal character array.
    pub fn chars(&self) -> (chars: Chars<'a>)
        ensures
            chars.remaining() == self@,
    {
        let units = self.as_bytes();
        assert(units@.subrange(0, units@.len() as int) =~= units@);
        Chars { units, front: 0 }
    }

    /// Get an iterator over the lines of the internal character array.
    pub fn lines(&self) -> (lines: Lines<'a>)
        ensures
            lines.remaining() == self@,
    {
        let units = self.as_bytes();
        assert(units@.subrange(0, units@.len() as int) =~= units@);
        Lines { current_index: 0, units }
    }
}

/// An immutable iterator over the buffer of a `PascalStr`.
#[derive(Clone, Copy, Debug)]
pub struct Chars<'a> {
    units: &'a [u8],
    front: usize,
}

impl<'a> Chars<'a> {
    #[verifier::type_invariant]
    spec fn well_formed(self) -> bool {
        &&& self.front <= self.units@.len() <= PASCAL_STRING_BUF_SIZE
        &&& all_ascii(self.units@)
    }

    /// The characters that are still to come, in the order in which they
    /// come.
    pub closed spec fn remaining(&self) -> Seq<u8> {
        self.units@.subrange(self.front as int, self.units@.len() as int)
    }

    /// The next character, from the front: characters come in the order in
    /// which they stand in the string.
    pub fn next(&mut self) -> (r: Option<u8>)
        ensures
            match r {
                Some(unit) => {
                    &&& old(self).remaining().len() > 0
                    &&& unit == old(self).remaining()[0]
                    &&& unit < 0x80
                    &&& final(self).remaining() == old(self).remaining().drop_first()
                },
                None => old(self).remaining().len() == 0 && *final(self) == *old(self),
            },
    {
        proof {
            use_type_invariant(&*self);
        }
        if self.front >= self.units.len() {
            return None;
        }
        let unit = self.units[self.front];
        *self = Chars { units: self.units, front: self.front + 1 };
        assert(self.remaining() =~= old(self).remaining().drop_first());
        Some(unit)
    }

    /// The number of characters that are still to come.
    pub fn len(&self) -> (n: usize)
        ensures
            n == self.remaining().len(),
    {
        proof {
            use_type_invariant(self);
        }
        self.units.len() - self.front
    }
}

/// An iterator over the lines of the internal character array.
#[derive(Clone, Copy, Debug)]
pub struct Lines<'a> {
    current_index: usize,
    units: &'a [u8],
}

impl<'a> Lines<'a> {
    #[verifier::type_invariant]
    spec fn well_formed(self) -> bool {
        &&& self.current_index <= self.units@.len() <= PASCAL_STRING_BUF_SIZE
        &&& all_ascii(self.units@)
    }

    /// The units that the lines still to come are cut from.
    pub closed spec fn remaining(&self) -> Seq<u8> {
        self.units@.subrange(self.current_index as int, self.units@.len() as int)
    }

    /// The next line, without the line feed that ends it: the first of
    /// `split_lines(self.remaining())`. What follows the line feed remains.
    pub fn next(&mut self) -> (r: Option<PascalStr<'a>>)
        ensures
            match r {
                Some(line) => {
                    &&& old(self).remaining().len() > 0
                    &&& line@ == old(self).remaining().subrange(
                        0,
                        line_len(old(self).remaining()) as int,
                    )
                    &&& line@ == split_lines(old(self).remaining())[0]
                    &&& !line.null_follows()
                    &&& line.wf()
                    &&& final(self).remaining() == after_first_line(old(self).remaining())
                },
                None => old(self).remaining().len() == 0 && *final(self) == *old(self),
            },
    {
        proof {
            use_type_invariant(&*self);
        }
        let units: &'a [u8] = self.units;
        let curr_idx = self.current_index;
        let len = units.len();
        if curr_idx >= len {
            return None;
        }
        let mut next_idx: usize = curr_idx;
        while next_idx < len && units[next_idx] != LINE_FEED
            invariant
                curr_idx <= next_idx <= len == units@.len(),
                forall|i: int| curr_idx <= i < next_idx ==> #[trigger] units@[i] != LINE_FEED,
            decreases len - next_idx,
        {
            next_idx += 1;
        }
        proof {
            let rest = old(self).remaining();
            assert forall|i: int| 0 <= i < next_idx - curr_idx implies #[trigger] rest[i]
                != LINE_FEED by {
                assert(units@[curr_idx + i] != LINE_FEED);
            }
            lemma_line_len_is(rest, next_idx - curr_idx);
        }
        let line_units: &'a [u8] = &units[curr_idx..next_idx];
        assert(line_units@ =~= old(self).remaining().subrange(
            0,
            line_len(old(self).remaining()) as int,
        ));
        assert(line_units@.subrange(0, line_units@.len() as int) =~= line_units@);
        let line = PascalStr::new(line_units, next_idx - curr_idx);
        // skip the linefeed
        let after = if next_idx < len {
            next_idx + 1
        } else {
            len
        };
        *self = Lines { current_index: after, units };
        assert(self.remaining() =~= after_first_line(old(self).remaining()));
        Some(line)
    }

    /// The number of lines that are still to come.
    pub fn len(&self) -> (n: usize)
        ensures
            n == split_lines(self.remaining()).len(),
    {
        proof {
            use_type_invariant(self);
        }
        let mut rest = *self;
        let mut n: usize = 0;
        loop
            invariant
                n + split_lines(rest.remaining()).len() == split_lines(self.remaining()).len(),
                n + rest.remaining().len() <= self.remaining().len() <= PASCAL_STRING_BUF_SIZE,
            decreases rest.remaining().len(),
        {
            proof {
                lemma_line_len(rest.remaining());
            }
            match rest.next() {
                Some(_) => {
                    n += 1;
                },
                None => {
                    return n;
                },
            }
        }
    }
}

} // verus!
