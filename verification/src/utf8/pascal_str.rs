//! The borrowed UTF-8 string, and the iterators over it.
use vstd::prelude::*;
use vstd::std_specs::iter::IteratorSpec;
use vstd::string::StringSliceAdditionalSpecFns;
use vstd::utf8::{
    decode_utf8, decode_utf8_encode_utf8, encode_utf8_decode_utf8, encode_utf8_valid_utf8,
    is_char_boundary, is_char_boundary_iff_not_is_continuation_byte,
    is_char_boundary_start_end_of_seq, valid_utf8, valid_utf8_split,
};
use crate::lines::{
    after_first_line, lemma_line_len, lemma_line_len_is, line_len, split_lines, LINE_FEED,
};
use crate::utf8::codec::str_from_utf8;
use crate::utf8::pascal_string::{PascalString, PascalStringCreateError};
use crate::PASCAL_STRING_BUF_SIZE;

verus! {

/// An iterator over the characters of a `PascalStr`.
pub type Chars<'a> = std::str::Chars<'a>;

/// The first line of valid UTF-8 is valid UTF-8, and so is what follows
/// the line feed that ends it.
pub proof fn lemma_lines_valid(bytes: Seq<u8>)
    requires
        valid_utf8(bytes),
    ensures
        valid_utf8(bytes.subrange(0, line_len(bytes) as int)),
        valid_utf8(after_first_line(bytes)),
{
    let n = line_len(bytes) as int;
    lemma_line_len(bytes);
    if n == bytes.len() {
        is_char_boundary_start_end_of_seq(bytes);
        valid_utf8_split(bytes, n);
    } else {
        is_char_boundary_iff_not_is_continuation_byte(bytes, n);
        valid_utf8_split(bytes, n);
        let tail = bytes.subrange(n, bytes.len() as int);
        assert(tail[0] == LINE_FEED);
        assert(vstd::utf8::pop_first_scalar(tail) =~= after_first_line(bytes));
    }
}

/// A borrowed slice from a `PascalString`. Does not own its data.
#[derive(Clone, Copy, Debug)]
pub struct PascalStr<'a> {
    string: &'a [u8],
}

impl<'a> View for PascalStr<'a> {
    type V = Seq<char>;

    /// The text of the string: what its bytes spell.
    closed spec fn view(&self) -> Seq<char> {
        decode_utf8(self.spec_bytes())
    }
}

impl<'a> PascalStr<'a> {
    /// The bytes of the string, in order.
    pub closed spec fn spec_bytes(&self) -> Seq<u8> {
        self.string@
    }

    /// What holds of every `PascalStr`: it views at most 255 bytes, which
    /// are valid UTF-8.
    pub closed spec fn wf(&self) -> bool {
        self.string@.len() <= PASCAL_STRING_BUF_SIZE && valid_utf8(self.string@)
    }

    #[verifier::type_invariant]
    spec fn well_formed(self) -> bool {
        self.wf()
    }

    /// What `wf` says over the public model.
    pub proof fn lemma_wf(self)
        requires
            self.wf(),
        ensures
            self.spec_bytes().len() <= PASCAL_STRING_BUF_SIZE,
            valid_utf8(self.spec_bytes()),
            self@ == decode_utf8(self.spec_bytes()),
            self.spec_bytes() == vstd::utf8::encode_utf8(self@),
    {
        decode_utf8_encode_utf8(self.spec_bytes());
    }

    /// Views `bytes`.
    pub(crate) fn new(bytes: &'a [u8]) -> (s: Self)
        requires
            bytes@.len() <= PASCAL_STRING_BUF_SIZE,
            valid_utf8(bytes@),
        ensures
            s.spec_bytes() == bytes@,
            s@ == decode_utf8(bytes@),
            s.wf(),
    {
        PascalStr { string: bytes }
    }

    /// Views `s` as a Pascal string.
    ///
    /// Returns an `Err` if `s` is longer than 255 bytes.
    pub fn from_str(s: &'a str) -> (r: Result<Self, PascalStringCreateError>)
        ensures
            match r {
                Ok(pstr) => {
                    &&& s.spec_bytes().len() <= PASCAL_STRING_BUF_SIZE
                    &&& pstr@ == s@
                    &&& pstr.spec_bytes() == s.spec_bytes()
                    &&& pstr.wf()
                },
                Err(PascalStringCreateError::InputTooLong) => s.spec_bytes().len()
                    > PASCAL_STRING_BUF_SIZE,
            },
    {
        let bytes = s.as_bytes();
        if bytes.len() > PASCAL_STRING_BUF_SIZE {
            return Err(PascalStringCreateError::InputTooLong);
        }
        proof {
            encode_utf8_valid_utf8(s@);
            encode_utf8_decode_utf8(s@);
        }
        Ok(PascalStr::new(bytes))
    }

    /// Get the `PascalStr` as an immutable `&str` reference.
    pub fn as_str(&self) -> (text: &'a str)
        ensures
            text@ == self@,
            text.spec_bytes() == self.spec_bytes(),
    {
        proof {
            use_type_invariant(self);
        }
        let bytes: &'a [u8] = self.string;
        let text = str_from_utf8(bytes).unwrap();
        proof {
            encode_utf8_decode_utf8(text@);
        }
        text
    }

    /// Get the `PascalStr` as its bytes.
    pub fn as_bytes(&self) -> (bytes: &'a [u8])
        ensures
            bytes@ == self.spec_bytes(),
            bytes@.len() <= PASCAL_STRING_BUF_SIZE,
            valid_utf8(bytes@),
    {
        proof {
            use_type_invariant(self);
        }
        self.string
    }

    /// Returns the number of bytes used in the string.
    pub fn len(&self) -> (n: usize)
        ensures
            n == self.spec_bytes().len(),
            n <= PASCAL_STRING_BUF_SIZE,
            self.wf(),
    {
        proof {
            use_type_invariant(self);
        }
        self.string.len()
    }

    /// Returns true if the string has a length of 0
    pub fn is_empty(&self) -> (b: bool)
        ensures
            b == (self.spec_bytes().len() == 0),
    {
        self.string.len() == 0
    }

    /// Returns true if the string has a length of 255 bytes.
    pub fn is_full(&self) -> (b: bool)
        ensures
            b == (self.spec_bytes().len() == PASCAL_STRING_BUF_SIZE),
    {
        self.string.len() == PASCAL_STRING_BUF_SIZE
    }

    /// Get an iterator over the characters of the string, decoded from its
    /// bytes.
    pub fn chars(&self) -> (chars: Chars<'a>)
        ensures
            chars.remaining() == self@,
    {
        broadcast use vstd::string::axiom_spec_iter;

        self.as_str().chars()
    }

    /// Get an iterator over the bytes of the string.
    pub fn bytes(&self) -> (bytes: Bytes<'a>)
        ensures
            bytes.remaining() == self.spec_bytes(),
    {
        let string = self.as_bytes();
        assert(string@.subrange(0, string@.len() as int) =~= string@);
        Bytes { string, front: 0 }
    }

    /// Get an iterator over the lines of the string.
    pub fn lines(&self) -> (lines: Lines<'a>)
        ensures
            lines.remaining() == self.spec_bytes(),
    {
        let string = self.as_bytes();
        assert(string@.subrange(0, string@.len() as int) =~= string@);
        Lines { current_index: 0, string }
    }

    /// Copies the string into a `PascalString` of its own.
    pub fn to_owned(&self) -> (owned: PascalString)
        ensures
            owned@ == self@,
            owned.spec_bytes() == self.spec_bytes(),
            owned.wf(),
    {
        proof {
            use_type_invariant(self);
        }
        let r = PascalString::from_str(self.as_str());
        r.unwrap()
    }
}

/// An iterator over the bytes of a `PascalStr`.
#[derive(Clone, Copy, Debug)]
pub struct Bytes<'a> {
    string: &'a [u8],
    front: usize,
}

impl<'a> Bytes<'a> {
    #[verifier::type_invariant]
    spec fn well_formed(self) -> bool {
        self.front <= self.string@.len() <= PASCAL_STRING_BUF_SIZE
    }

    /// The bytes that are still to come, in the order in which they come.
    pub closed spec fn remaining(&self) -> Seq<u8> {
        self.string@.subrange(self.front as int, self.string@.len() as int)
    }

    /// The next byte, from the front.
    pub fn next(&mut self) -> (r: Option<u8>)
        ensures
            match r {
                Some(byte) => {
                    &&& old(self).remaining().len() > 0
                    &&& byte == old(self).remaining()[0]
                    &&& final(self).remaining() == old(self).remaining().drop_first()
                },
                None => old(self).remaining().len() == 0 && *final(self) == *old(self),
            },
    {
        proof {
            use_type_invariant(&*self);
        }
        if self.front >= self.string.len() {
            return None;
        }
        let byte = self.string[self.front];
        *self = Bytes { string: self.string, front: self.front + 1 };
        assert(self.remaining() =~= old(self).remaining().drop_first());
        Some(byte)
    }

    /// The number of bytes that are still to come.
    pub fn len(&self) -> (n: usize)
        ensures
            n == self.remaining().len(),
    {
        proof {
            use_type_invariant(self);
        }
        self.string.len() - self.front
    }
}

/// An iterator over the lines of a `PascalStr`.
#[derive(Clone, Copy, Debug)]
pub struct Lines<'a> {
    current_index: usize,
    string: &'a [u8],
}

impl<'a> Lines<'a> {
    #[verifier::type_invariant]
    spec fn well_formed(self) -> bool {
        &&& self.current_index <= self.string@.len() <= PASCAL_STRING_BUF_SIZE
        &&& valid_utf8(self.string@.subrange(self.current_index as int, self.string@.len() as int))
    }

    /// The bytes that the lines still to come are cut from.
    pub closed spec fn remaining(&self) -> Seq<u8> {
        self.string@.subrange(self.current_index as int, self.string@.len() as int)
    }

    /// The next line, without the line feed that ends it: the first of
    /// `split_lines(self.remaining())`. What follows the line feed remains.
    pub fn next(&mut self) -> (r: Option<PascalStr<'a>>)
        ensures
            match r {
                Some(line) => {
                    &&& old(self).remaining().len() > 0
                    &&& line.spec_bytes() == old(self).remaining().subrange(
                        0,
                        line_len(old(self).remaining()) as int,
                    )
                    &&& line.spec_bytes() == split_lines(old(self).remaining())[0]
                    &&& line@ == decode_utf8(line.spec_bytes())
                    &&& line.wf()
                    &&& final(self).remaining() == after_first_line(old(self).remaining())
                },
                None => old(self).remaining().len() == 0 && *final(self) == *old(self),
            },
    {
        proof {
            use_type_invariant(&*self);
        }
        let string: &'a [u8] = self.string;
        let curr_idx = self.current_index;
        let len = string.len();
        if curr_idx >= len {
            return None;
        }
        let mut next_idx: usize = curr_idx;
        while next_idx < len && string[next_idx] != LINE_FEED
            invariant
                curr_idx <= next_idx <= len == string@.len(),
                forall|i: int| curr_idx <= i < next_idx ==> #[trigger] string@[i] != LINE_FEED,
            decreases len - next_idx,
        {
            next_idx += 1;
        }
        proof {
            let rest = old(self).remaining();
            assert forall|i: int| 0 <= i < next_idx - curr_idx implies #[trigger] rest[i]
                != LINE_FEED by {
                assert(string@[curr_idx + i] != LINE_FEED);
            }
            lemma_line_len_is(rest, next_idx - curr_idx);
            lemma_lines_valid(rest);
        }
        let line_bytes: &'a [u8] = &string[curr_idx..next_idx];
        assert(line_bytes@ =~= old(self).remaining().subrange(
            0,
            line_len(old(self).remaining()) as int,
        ));
        let line = PascalStr::new(line_bytes);
        // skip the linefeed
        let after = if next_idx < len {
            next_idx + 1
        } else {
            len
        };
        assert(string@.subrange(after as int, len as int) =~= after_first_line(
            old(self).remaining(),
        ));
        *self = Lines { current_index: after, string };
        Some(line)
    }

    /// The number of lines that are still to come.
    pub fn len(&self) -> (n: usize)
        ensures
            n == split_lines(self.remaining()).len(),
    {
        proof {
            use_type_invariant(self);
        }
        let mut rest = *self;
        let mut n: usize = 0;
        loop
            invariant
                n + split_lines(rest.remaining()).len() == split_lines(self.remaining()).len(),
                n + rest.remaining().len() <= self.remaining().len() <= PASCAL_STRING_BUF_SIZE,
            decreases rest.remaining().len(),
        {
            proof {
                lemma_line_len(rest.remaining());
            }
            match rest.next() {
                Some(_) => {
                    n += 1;
                },
                None => {
                    return n;
                },
            }
        }
    }
}

} // verus!
