//! The owned UTF-8 string.
use vstd::prelude::*;
use vstd::string::StringSliceAdditionalSpecFns;
use vstd::utf8::{decode_utf8, decode_utf8_encode_utf8, encode_utf8, valid_utf8};
use crate::ascii::codec::{
    ascii_lowercase, ascii_uppercase, lower_of, to_lower, to_upper, upper_of,
};
use crate::utf8::codec::{
    encode_char, lemma_ascii_change_keeps_utf8, lemma_decode_push, lemma_encode_concat,
    lemma_encode_push,
};
use crate::utf8::pascal_str_mut::PascalStrMut;
use crate::utf8::pascal_str::{Bytes, Chars, Lines, PascalStr};
use vstd::std_specs::iter::IteratorSpec;
use crate::PASCAL_STRING_BUF_SIZE;

verus! {

/// Indicates the range of errors which can occur from creating a new `PascalString`.
#[derive(Debug, Clone, Copy, PartialEq, Eq, Structural)]
pub enum PascalStringCreateError {
    /// The data provided to the constructor was larger than the `PascalString` could store.
    InputTooLong,
}

/// Indicates the range of errors which can occur from appending string data to a `PascalString`.
#[derive(Debug, Clone, Copy, PartialEq, Eq, Structural)]
pub enum PascalStringAppendError {
    /// There is no room to store the appended data.
    NoRoom,
}

/// What pushing `ch` onto a string whose bytes are `bytes` comes to: the new
/// bytes, or `NoRoom` where fewer bytes remain than `ch` takes.
pub open spec fn push_spec(bytes: Seq<u8>, ch: char) -> Result<Seq<u8>, PascalStringAppendError> {
    if bytes.len() + encode_char(ch).len() > PASCAL_STRING_BUF_SIZE {
        Err(PascalStringAppendError::NoRoom)
    } else {
        Ok(bytes + encode_char(ch))
    }
}

/// Whether `r` is what creating a string from `text` has to give: a string
/// of that text, or `InputTooLong` where the text takes more than 255 bytes.
pub open spec fn create_post(text: Seq<char>, r: Result<PascalString, PascalStringCreateError>) -> bool {
    match r {
        Ok(pstring) => {
            &&& encode_utf8(text).len() <= PASCAL_STRING_BUF_SIZE
            &&& pstring@ == text
            &&& pstring.spec_bytes() == encode_utf8(text)
            &&& pstring.wf()
        },
        Err(PascalStringCreateError::InputTooLong) => encode_utf8(text).len()
            > PASCAL_STRING_BUF_SIZE,
    }
}

/// An owned `PascalString`. This string type stores its data the stack. It is always 256 bytes long, with
/// the first byte storing the length *of the number of bytes used*.
///
/// Note that because this string type is utf8 encoded, the first byte will not store the number of characters
/// in the string.
#[derive(Clone, Copy, Debug)]
pub struct PascalString {
    /// The number of bytes used in the string.
    len: u8,
    /// The internal character buffer, encoded in utf8
    chars_buf: [u8; 255],
}

impl View for PascalString {
    type V = Seq<char>;

    /// The text of the string: what its bytes spell.
    closed spec fn view(&self) -> Seq<char> {
        decode_utf8(self.spec_bytes())
    }
}

impl PascalString {
    /// The used bytes of the string, in order.
    pub closed spec fn spec_bytes(&self) -> Seq<u8> {
        self.chars_buf@.subrange(0, self.len as int)
    }

    /// The whole buffer, used or not.
    pub closed spec fn storage(&self) -> Seq<u8> {
        self.chars_buf@
    }

    /// What holds of every `PascalString`: its used bytes are valid UTF-8.
    pub closed spec fn wf(&self) -> bool {
        valid_utf8(self.spec_bytes())
    }

    #[verifier::type_invariant]
    spec fn well_formed(self) -> bool {
        self.wf()
    }

    /// What `wf` says over the public model.
    pub proof fn lemma_wf(self)
        requires
            self.wf(),
        ensures
            self.spec_bytes().len() <= PASCAL_STRING_BUF_SIZE,
            valid_utf8(self.spec_bytes()),
            self@ == decode_utf8(self.spec_bytes()),
            self.spec_bytes() == encode_utf8(self@),
            self.storage().len() == PASCAL_STRING_BUF_SIZE,
            self.spec_bytes() == self.storage().subrange(0, self.spec_bytes().len() as int),
    {
        decode_utf8_encode_utf8(self.spec_bytes());
    }

    /// Creates a new, empty `PascalString`.
    pub fn new() -> (s: Self)
        ensures
            s@ == Seq::<char>::empty(),
            s.spec_bytes() == Seq::<u8>::empty(),
            s.storage() == Seq::new(PASCAL_STRING_BUF_SIZE as nat, |i: int| 0u8),
            s.wf(),
    {
        let s = PascalString { len: 0, chars_buf: [0u8; 255] };
        assert(s.spec_bytes() =~= Seq::<u8>::empty());
        assert(s.storage() =~= Seq::new(PASCAL_STRING_BUF_SIZE as nat, |i: int| 0u8));
        s
    }

    /// Returns the number of bytes used in the string.
    pub fn len(&self) -> (n: usize)
        ensures
            n == self.spec_bytes().len(),
            n <= PASCAL_STRING_BUF_SIZE,
            self.wf(),
    {
        proof {
            use_type_invariant(self);
        }
        self.len as usize
    }

    /// Returns true if the string has a length of 0
    pub fn is_empty(&self) -> (b: bool)
        ensures
            b == (self.spec_bytes().len() == 0),
    {
        self.len == 0
    }

    /// Returns true if the string has a length of 255 bytes.
    pub fn is_full(&self) -> (b: bool)
        ensures
            b == (self.spec_bytes().len() == PASCAL_STRING_BUF_SIZE),
    {
        self.len == 255
    }

    /// Creates a new `PascalString` with the contents of `s`.
    ///
    /// # Returns
    ///
    /// If the contents of `s` can be stored in the buffer of the `PascalString`, then it returns
    /// `Ok`. Otherwise, returns `Err`.
    pub fn from_str(s: &str) -> (r: Result<Self, PascalStringCreateError>)
        ensures
            create_post(s@, r),
    {
        if s.as_bytes().len() > PASCAL_STRING_BUF_SIZE {
            return Err(PascalStringCreateError::InputTooLong);
        }
        let mut pstring = PascalString::new();
        let r = pstring._try_push_str(s);
        assert(r is Ok);
        proof {
            assert(Seq::<u8>::empty() + s.spec_bytes() =~= s.spec_bytes());
            assert(Seq::<char>::empty() + s@ =~= s@);
        }
        Ok(pstring)
    }

    /// Push a character onto the end of the string's internal buffer.
    ///
    /// There must be room to store all of the bytes of the `char`.
    pub fn push(&mut self, ch: char)
        requires
            old(self).spec_bytes().len() + encode_char(ch).len() <= PASCAL_STRING_BUF_SIZE,
        ensures
            final(self)@ == old(self)@.push(ch),
            final(self).spec_bytes() == old(self).spec_bytes() + encode_char(ch),
            final(self).wf(),
    {
        let r = self.try_push(ch);
        assert(r is Ok);
    }

    /// Attempt to push a `char` onto the end of this string's internal buffer.
    ///
    /// # Returns
    ///
    /// Returns `Ok(())` if the operation succeeded. Where fewer bytes
    /// remain than the character takes, returns `NoRoom`, and the string,
    /// each byte of its buffer included, is as it was.
    pub fn try_push(&mut self, ch: char) -> (r: Result<(), PascalStringAppendError>)
        ensures
            match push_spec(old(self).spec_bytes(), ch) {
                Ok(bytes) => {
                    &&& r is Ok
                    &&& final(self).spec_bytes() == bytes
                    &&& final(self)@ == old(self)@.push(ch)
                },
                Err(e) => r == Err::<(), PascalStringAppendError>(e) && *final(self) == *old(self),
            },
            final(self).wf(),
    {
        proof {
            use_type_invariant(&*self);
        }
        let start = self.len as usize;
        let mut chars_buf = self.chars_buf;
        let all: &mut [u8] = &mut chars_buf;
        let (_, tail) = all.split_at_mut(start);
        match odds::char::encode_utf8(ch, tail) {
            Ok(num_bytes_extended) => {
                proof {
                    lemma_decode_push(self.spec_bytes(), ch);
                    assert(chars_buf@.subrange(0, start + num_bytes_extended) =~= self.spec_bytes()
                        + encode_char(ch));
                }
                *self = PascalString { len: (start + num_bytes_extended) as u8, chars_buf };
                Ok(())
            },
            Err(_) => {
                Err(PascalStringAppendError::NoRoom)
            },
        }
    }

    /// Push a string onto the end of this string's internal buffer.
    ///
    /// There must be room to store all of the bytes of the `str`.
    pub fn push_str(&mut self, s: &str)
        requires
            old(self).spec_bytes().len() + s.spec_bytes().len() <= PASCAL_STRING_BUF_SIZE,
        ensures
            final(self)@ == old(self)@ + s@,
            final(self).spec_bytes() == old(self).spec_bytes() + s.spec_bytes(),
            final(self).wf(),
    {
        let r = self.try_push_str(s);
        assert(r is Ok);
    }

    /// Attempt to push a string onto the end of this string's internal buffer.
    ///
    /// # Returns
    ///
    /// Returns `Ok(())` if the operation succeeded. Where fewer bytes
    /// remain than `s` takes, returns `NoRoom`, and the string is as it was:
    /// the room is checked for all of `s` before its first character is
    /// pushed, so that no push on the way can fail.
    pub fn try_push_str(&mut self, s: &str) -> (r: Result<(), PascalStringAppendError>)
        ensures
            match r {
                Ok(()) => {
                    &&& old(self).spec_bytes().len() + s.spec_bytes().len()
                        <= PASCAL_STRING_BUF_SIZE
                    &&& final(self)@ == old(self)@ + s@
                    &&& final(self).spec_bytes() == old(self).spec_bytes() + s.spec_bytes()
                },
                Err(PascalStringAppendError::NoRoom) => {
                    &&& old(self).spec_bytes().len() + s.spec_bytes().len()
                        > PASCAL_STRING_BUF_SIZE
                    &&& *final(self) == *old(self)
                },
            },
            final(self).wf(),
    {
        self._try_push_str(s)
    }

    fn _try_push_str(&mut self, s: &str) -> (r: Result<(), PascalStringAppendError>)
        ensures
            match r {
                Ok(()) => {
                    &&& old(self).spec_bytes().len() + s.spec_bytes().len()
                        <= PASCAL_STRING_BUF_SIZE
                    &&& final(self)@ == old(self)@ + s@
                    &&& final(self).spec_bytes() == old(self).spec_bytes() + s.spec_bytes()
                },
                Err(PascalStringAppendError::NoRoom) => {
                    &&& old(self).spec_bytes().len() + s.spec_bytes().len()
                        > PASCAL_STRING_BUF_SIZE
                    &&& *final(self) == *old(self)
                },
            },
            final(self).wf(),
    {
        proof {
            use_type_invariant(&*self);
        }
        if s.as_bytes().len() > PASCAL_STRING_BUF_SIZE - self.len() {
            return Err(PascalStringAppendError::NoRoom);
        }
        for ch in it: s.chars()
            invariant
                it.seq() == s@,
                old(self).spec_bytes().len() + s.spec_bytes().len() <= PASCAL_STRING_BUF_SIZE,
                self.wf(),
                self@ == old(self)@ + s@.take(it.index()),
                self.spec_bytes() == old(self).spec_bytes() + encode_utf8(
                    s@.take(it.index()),
                ),
        {
            proof {
                let done = s@.take(it.index());
                assert(s@.take(it.index() + 1) =~= done.push(ch));
                assert(s@ =~= done.push(ch) + s@.skip(it.index() + 1));
                lemma_encode_push(done, ch);
                lemma_encode_concat(done.push(ch), s@.skip(it.index() + 1));
                assert(old(self)@ + done.push(ch) =~= (old(self)@ + done).push(ch));
                assert(old(self).spec_bytes() + (encode_utf8(done) + encode_char(ch))
                    =~= (old(self).spec_bytes() + encode_utf8(done)) + encode_char(
                    ch,
                ));
            }
            self.push(ch);
        }
        proof {
            assert(s@.take(s@.len() as int) =~= s@);
        }
        Ok(())
    }
    /// Borrows the string: the view of all of its text.
    pub fn as_pascal_str(&self) -> (s: PascalStr<'_>)
        ensures
            s@ == self@,
            s.spec_bytes() == self.spec_bytes(),
            s.wf(),
    {
        proof {
            use_type_invariant(self);
        }
        let all: &[u8] = &self.chars_buf;
        let bytes = &all[0..self.len as usize];
        PascalStr::new(bytes)
    }

    /// Puts the ascii letters of the string in upper case. Every other
    /// byte stays, and with it every character that is not ascii; so do the
    /// length and the buffer after the used bytes.
    pub fn make_ascii_uppercase(&mut self)
        ensures
            final(self).spec_bytes() == upper_of(old(self).spec_bytes()),
            final(self).storage() == upper_of(old(self).spec_bytes()) + old(self).storage().subrange(
                old(self).spec_bytes().len() as int,
                PASCAL_STRING_BUF_SIZE as int,
            ),
            final(self).wf(),
    {
        proof {
            use_type_invariant(&*self);
        }
        let len = self.len as usize;
        let mut chars_buf = self.chars_buf;
        let mut i: usize = 0;
        while i < len
            invariant
                len == self.len,
                i <= len,
                forall|j: int| 0 <= j < i ==> chars_buf@[j] == to_upper(self.chars_buf@[j]),
                forall|j: int| i <= j < 255 ==> chars_buf@[j] == self.chars_buf@[j],
            decreases len - i,
        {
            chars_buf[i] = ascii_uppercase(chars_buf[i]);
            i += 1;
        }
        proof {
            let changed = chars_buf@.subrange(0, len as int);
            assert(changed =~= upper_of(self.spec_bytes()));
            lemma_ascii_change_keeps_utf8(self.spec_bytes(), changed);
        }
        *self = PascalString { len: self.len, chars_buf };
        assert(self.storage() =~= upper_of(old(self).spec_bytes()) + old(self).storage().subrange(
            old(self).spec_bytes().len() as int,
            PASCAL_STRING_BUF_SIZE as int,
        ));
    }

    /// Puts the ascii letters of the string in lower case. Every other
    /// byte stays, and with it every character that is not ascii; so do the
    /// length and the buffer after the used bytes.
    pub fn make_ascii_lowercase(&mut self)
        ensures
            final(self).spec_bytes() == lower_of(old(self).spec_bytes()),
            final(self).storage() == lower_of(old(self).spec_bytes()) + old(self).storage().subrange(
                old(self).spec_bytes().len() as int,
                PASCAL_STRING_BUF_SIZE as int,
            ),
            final(self).wf(),
    {
        proof {
            use_type_invariant(&*self);
        }
        let len = self.len as usize;
        let mut chars_buf = self.chars_buf;
        let mut i: usize = 0;
        while i < len
            invariant
                len == self.len,
                i <= len,
                forall|j: int| 0 <= j < i ==> chars_buf@[j] == to_lower(self.chars_buf@[j]),
                forall|j: int| i <= j < 255 ==> chars_buf@[j] == self.chars_buf@[j],
            decreases len - i,
        {
            chars_buf[i] = ascii_lowercase(chars_buf[i]);
            i += 1;
        }
        proof {
            let changed = chars_buf@.subrange(0, len as int);
            assert(changed =~= lower_of(self.spec_bytes()));
            lemma_ascii_change_keeps_utf8(self.spec_bytes(), changed);
        }
        *self = PascalString { len: self.len, chars_buf };
        assert(self.storage() =~= lower_of(old(self).spec_bytes()) + old(self).storage().subrange(
            old(self).spec_bytes().len() as int,
            PASCAL_STRING_BUF_SIZE as int,
        ));
    }

    /// Borrows the string mutably: the view that can write in place and
    /// cannot change the length. What it writes is in the string when the
    /// view is let go.
    pub fn as_mut_pascal_str(&mut self) -> (s: PascalStrMut<'_>)
        ensures
            *s.string == *old(self),
            *final(s.string) == *final(self),
    {
        PascalStrMut { string: self }
    }

    /// Get the string as an immutable `&str` reference.
    pub fn as_str(&self) -> (text: &str)
        ensures
            text@ == self@,
            text.spec_bytes() == self.spec_bytes(),
    {
        self.as_pascal_str().as_str()
    }

    /// Get the string as its bytes.
    pub fn as_bytes(&self) -> (bytes: &[u8])
        ensures
            bytes@ == self.spec_bytes(),
            bytes@.len() <= PASCAL_STRING_BUF_SIZE,
            valid_utf8(bytes@),
    {
        self.as_pascal_str().as_bytes()
    }

    /// Get an iterator over the characters of the string, decoded from its
    /// bytes.
    pub fn chars(&self) -> (chars: Chars<'_>)
        ensures
            chars.remaining() == self@,
    {
        self.as_pascal_str().chars()
    }

    /// Get an iterator over the bytes of the string.
    pub fn bytes(&self) -> (bytes: Bytes<'_>)
        ensures
            bytes.remaining() == self.spec_bytes(),
    {
        self.as_pascal_str().bytes()
    }

    /// Get an iterator over the lines of the string.
    pub fn lines(&self) -> (lines: Lines<'_>)
        ensures
            lines.remaining() == self.spec_bytes(),
    {
        self.as_pascal_str().lines()
    }

    /// The string as a heap-allocated `String`.
    pub fn to_string(&self) -> (text: String)
        ensures
            text@ == self@,
    {
        self.as_str().to_owned()
    }
}

impl Default for PascalString {
    /// The empty string.
    fn default() -> (s: Self)
        ensures
            s@ == Seq::<char>::empty(),
            s.spec_bytes() == Seq::<u8>::empty(),
            s.wf(),
    {
        PascalString::new()
    }
}

impl PascalStringAppendError {
    /// What went wrong, in words.
    pub fn description(&self) -> (text: &'static str)
        ensures
            text@ == "there is no room for the string to be appended"@,
    {
        "there is no room for the string to be appended"
    }
}

} // verus!
