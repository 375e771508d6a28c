//! The owned ASCII string.
use std::borrow::Cow;
use vstd::prelude::*;
use vstd::std_specs::convert::FromSpecImpl;
use vstd::string::StringSliceAdditionalSpecFns;
use vstd::utf8::is_ascii_chars;
use crate::ascii::codec::{
    all_ascii, ascii_lowercase, ascii_uppercase, chars_as_units, check_ascii, eq_ignore_case,
    first_non_ascii, first_non_ascii_char, is_ascii_char, lemma_ascii_chars_units,
    lemma_first_non_ascii_char_exists, lemma_first_non_ascii_text, lemma_first_non_ascii_unique,
    lower_of, same_ignoring_case, to_ascii_unit, to_lower, to_upper, unit_of, units_as_chars,
    upper_of, AsciiError,
};
use crate::ascii::pascal_str::{as_cstr_post, Chars, InteriorNullError, Lines, PascalStr};
use crate::ascii::pascal_str_mut::PascalStrMut;
use crate::PASCAL_STRING_BUF_SIZE;

verus! {

/// Indicates the range of errors which can occur from creating a new `PascalString`.
#[derive(Debug, Clone, Copy, PartialEq, Eq, Structural)]
pub enum PascalStringCreateError {
    /// The data provided to the constructor was larger than the `PascalString` could store.
    InputTooLong,
    /// The data provided was not correctly encoded as ascii.
    NotValidAscii(AsciiError),
}

/// Indicates the range of errors which can occur from appending string data to a `PascalString`.
#[derive(Debug, Clone, Copy, PartialEq, Eq, Structural)]
pub enum PascalStringAppendError {
    /// There is no room to store the appended data.
    NoRoom,
    /// The data provided was not correctly encoded as ascii.
    NotValidAscii(AsciiError),
}

impl PascalStringCreateError {
    /// What went wrong, in words.
    pub fn description(&self) -> (text: &'static str)
        ensures
            text@ == match self {
                PascalStringCreateError::InputTooLong => {
                    "the input data is longer than what a PascalString can store"@
                },
                PascalStringCreateError::NotValidAscii(_) => "could not convert input data to ascii"@,
            },
    {
        match self {
            PascalStringCreateError::InputTooLong => {
                "the input data is longer than what a PascalString can store"
            },
            PascalStringCreateError::NotValidAscii(_) => "could not convert input data to ascii",
        }
    }

    /// The ascii error behind this error, where there is one.
    pub fn cause(&self) -> (e: Option<AsciiError>)
        ensures
            e == match self {
                PascalStringCreateError::InputTooLong => None::<AsciiError>,
                PascalStringCreateError::NotValidAscii(inner) => Some(*inner),
            },
    {
        match self {
            PascalStringCreateError::InputTooLong => None,
            PascalStringCreateError::NotValidAscii(inner) => Some(*inner),
        }
    }
}

impl PascalStringAppendError {
    /// What went wrong, in words.
    pub fn description(&self) -> (text: &'static str)
        ensures
            text@ == match self {
                PascalStringAppendError::NoRoom => {
                    "there is no space left in the string to append the data"@
                },
                PascalStringAppendError::NotValidAscii(_) => "could not convert string to ascii"@,
            },
    {
        match self {
            PascalStringAppendError::NoRoom => {
                "there is no space left in the string to append the data"
            },
            PascalStringAppendError::NotValidAscii(_) => "could not convert string to ascii",
        }
    }

    /// The ascii error behind this error, where there is one.
    pub fn cause(&self) -> (e: Option<AsciiError>)
        ensures
            e == match self {
                PascalStringAppendError::NoRoom => None::<AsciiError>,
                PascalStringAppendError::NotValidAscii(inner) => Some(*inner),
            },
    {
        match self {
            PascalStringAppendError::NoRoom => None,
            PascalStringAppendError::NotValidAscii(inner) => Some(*inner),
        }
    }
}

impl From<AsciiError> for PascalStringCreateError {
    fn from(e: AsciiError) -> (r: Self) {
        PascalStringCreateError::NotValidAscii(e)
    }
}

impl FromSpecImpl<AsciiError> for PascalStringCreateError {
    open spec fn obeys_from_spec() -> bool {
        true
    }

    open spec fn from_spec(e: AsciiError) -> Self {
        PascalStringCreateError::NotValidAscii(e)
    }
}

impl From<AsciiError> for PascalStringAppendError {
    fn from(e: AsciiError) -> (r: Self) {
        PascalStringAppendError::NotValidAscii(e)
    }
}

impl FromSpecImpl<AsciiError> for PascalStringAppendError {
    open spec fn obeys_from_spec() -> bool {
        true
    }

    open spec fn from_spec(e: AsciiError) -> Self {
        PascalStringAppendError::NotValidAscii(e)
    }
}

/// What pushing `character` onto a string that holds `content` comes to: the
/// new content, or the error. A full string refuses every character with
/// `NoRoom`; one with room refuses a character that is not ASCII.
pub open spec fn push_spec(content: Seq<u8>, character: char) -> Result<
    Seq<u8>,
    PascalStringAppendError,
> {
    if content.len() >= PASCAL_STRING_BUF_SIZE {
        Err(PascalStringAppendError::NoRoom)
    } else if !is_ascii_char(character) {
        Err(PascalStringAppendError::NotValidAscii(AsciiError::Char))
    } else {
        Ok(content.push(unit_of(character)))
    }
}

/// The content that pushing `chars` one by one onto a string that holds
/// `content` leaves, where a character that is refused, for not being ASCII
/// or for want of room, is passed over.
pub open spec fn push_each(content: Seq<u8>, chars: Seq<char>) -> Seq<u8>
    decreases chars.len(),
{
    if chars.len() == 0 {
        content
    } else {
        match push_spec(content, chars[0]) {
            Ok(longer) => push_each(longer, chars.drop_first()),
            Err(_) => push_each(content, chars.drop_first()),
        }
    }
}

/// Whether `r` is what creating a string from `bytes` has to give: the bytes
/// themselves where they fit and are ASCII, `InputTooLong` where they do not
/// fit, and else the place of the first byte that is not ASCII.
pub open spec fn create_post(bytes: Seq<u8>, r: Result<PascalString, PascalStringCreateError>) -> bool {
    match r {
        Ok(s) => bytes.len() <= PASCAL_STRING_BUF_SIZE && all_ascii(bytes) && s@ == bytes && s.wf(),
        Err(PascalStringCreateError::InputTooLong) => bytes.len() > PASCAL_STRING_BUF_SIZE,
        Err(PascalStringCreateError::NotValidAscii(AsciiError::Str(index))) => {
            bytes.len() <= PASCAL_STRING_BUF_SIZE && first_non_ascii(bytes, index as int)
        },
        Err(PascalStringCreateError::NotValidAscii(AsciiError::Char)) => false,
    }
}

/// Whether `r` is what appending `bytes` to a string that holds `content` has
/// to give, `after` being the content that the string is left with. Bytes
/// that are not all ASCII are refused before the room is looked at, and a
/// refused append changes nothing.
pub open spec fn append_post(
    content: Seq<u8>,
    bytes: Seq<u8>,
    r: Result<(), PascalStringAppendError>,
    after: Seq<u8>,
) -> bool {
    match r {
        Ok(()) => {
            &&& all_ascii(bytes)
            &&& content.len() + bytes.len() <= PASCAL_STRING_BUF_SIZE
            &&& after == content + bytes
        },
        Err(PascalStringAppendError::NotValidAscii(AsciiError::Str(index))) => {
            first_non_ascii(bytes, index as int) && after == content
        },
        Err(PascalStringAppendError::NotValidAscii(AsciiError::Char)) => false,
        Err(PascalStringAppendError::NoRoom) => {
            &&& all_ascii(bytes)
            &&& content.len() + bytes.len() > PASCAL_STRING_BUF_SIZE
            &&& after == content
        },
    }
}

/// Whether `r` is what appending `text` to a string that holds `content` has
/// to give, `after` being the content that the string is left with. Text
/// that is not all ASCII is refused before the room is looked at, with the
/// place of its first character that is not ASCII; text that does not fit is
/// refused with `NoRoom`; and a refused append changes nothing.
pub open spec fn append_text_post(
    content: Seq<u8>,
    text: Seq<char>,
    r: Result<(), PascalStringAppendError>,
    after: Seq<u8>,
) -> bool {
    match r {
        Ok(()) => {
            &&& is_ascii_chars(text)
            &&& content.len() + text.len() <= PASCAL_STRING_BUF_SIZE
            &&& after == content + chars_as_units(text)
        },
        Err(PascalStringAppendError::NotValidAscii(AsciiError::Str(index))) => {
            first_non_ascii_char(text, index as int) && after == content
        },
        Err(PascalStringAppendError::NotValidAscii(AsciiError::Char)) => false,
        Err(PascalStringAppendError::NoRoom) => {
            &&& is_ascii_chars(text)
            &&& content.len() + text.len() > PASCAL_STRING_BUF_SIZE
            &&& after == content
        },
    }
}

/// An owned `PascalString`. This string type stores its data the stack. It is always 256 bytes long, with
/// the first byte storing the length.
///
/// This string type uses Ascii encoding.
#[derive(Clone, Copy, Debug)]
pub struct PascalString {
    /// The length of this string.
    len: u8,
    /// The characters of this string, encoded as an ascii array.
    chars: [u8; 255],
}

impl View for PascalString {
    type V = Seq<u8>;

    /// The occupied units, in order.
    closed spec fn view(&self) -> Seq<u8> {
        self.chars@.subrange(0, self.len as int)
    }
}

impl PascalString {
    /// What holds of every `PascalString`: every unit of the buffer, occupied
    /// or not, is ASCII, and unless the string is full the unit after the
    /// occupied ones is null.
    pub closed spec fn wf(&self) -> bool {
        &&& forall|i: int| 0 <= i < 255 ==> #[trigger] self.chars@[i] < 0x80
        &&& self.len < 255 ==> self.chars@[self.len as int] == 0
    }

    #[verifier::type_invariant]
    spec fn well_formed(self) -> bool {
        self.wf()
    }

    /// The whole buffer, occupied or not.
    pub closed spec fn storage(&self) -> Seq<u8> {
        self.chars@
    }

    /// What `wf` says over the public model.
    pub proof fn lemma_wf(self)
        requires
            self.wf(),
        ensures
            self@.len() <= PASCAL_STRING_BUF_SIZE,
            all_ascii(self@),
            self.storage().len() == PASCAL_STRING_BUF_SIZE,
            all_ascii(self.storage()),
            self@ == self.storage().subrange(0, self@.len() as int),
            self@.len() < PASCAL_STRING_BUF_SIZE ==> self.storage()[self@.len() as int] == 0,
    {
    }

    /// Creates a new, empty `PascalString`.
    pub fn new() -> (s: Self)
        ensures
            s@ == Seq::<u8>::empty(),
            s.storage() == Seq::new(PASCAL_STRING_BUF_SIZE as nat, |i: int| 0u8),
            s.wf(),
    {
        let s = PascalString { len: 0, chars: [0u8; 255] };
        assert(s@ =~= Seq::<u8>::empty());
        assert(s.storage() =~= Seq::new(PASCAL_STRING_BUF_SIZE as nat, |i: int| 0u8));
        s
    }

    /// Returns the number of characters used in the string.
    pub fn len(&self) -> (n: usize)
        ensures
            n == self@.len(),
            n <= PASCAL_STRING_BUF_SIZE,
            self.wf(),
    {
        proof {
            use_type_invariant(self);
        }
        self.len as usize
    }

    /// Returns true if the string has a length of 0.
    pub fn is_empty(&self) -> (b: bool)
        ensures
            b == (self@.len() == 0),
    {
        self.len == 0
    }

    /// Returns true if the string has a length of 255.
    ///
    /// When this value is true, no more elements can be pushed onto the string.
    pub fn is_full(&self) -> (b: bool)
        ensures
            b == (self@.len() == PASCAL_STRING_BUF_SIZE),
    {
        self.len == 255
    }

    /// Create a new `PascalString` from its constituent parts: `string_len` and `char_array`.
    ///
    /// Returns an `Err` if one of the first `string_len` characters of
    /// `char_array` is not valid Ascii. The characters after them are not
    /// looked at, and not kept.
    pub fn from_fixed_ascii_array(string_len: u8, char_array: [char; 255]) -> (r: Result<
        Self,
        PascalStringCreateError,
    >)
        ensures
            match r {
                Ok(s) => {
                    &&& forall|i: int| 0 <= i < string_len ==> is_ascii_char(#[trigger] char_array@[i])
                    &&& s@ == Seq::new(string_len as nat, |i: int| unit_of(char_array@[i]))
                    &&& s.wf()
                },
                Err(e) => {
                    &&& exists|i: int| 0 <= i < string_len && !is_ascii_char(#[trigger] char_array@[i])
                    &&& e == PascalStringCreateError::NotValidAscii(AsciiError::Char)
                },
            },
    {
        let len = string_len as usize;
        let mut chars = [0u8; 255];
        let mut i: usize = 0;
        while i < len
            invariant
                len == string_len,
                i <= len <= 255,
                forall|j: int| 0 <= j < i ==> is_ascii_char(#[trigger] char_array@[j]),
                forall|j: int| 0 <= j < i ==> chars@[j] < 0x80 && chars@[j] == unit_of(char_array@[j]),
                forall|j: int| i <= j < 255 ==> chars@[j] == 0,
            decreases len - i,
        {
            let ch = char_array[i];
            match to_ascii_unit(ch) {
                Some(unit) => {
                    chars[i] = unit;
                },
                None => {
                    return Err(PascalStringCreateError::NotValidAscii(AsciiError::Char));
                },
            }
            i += 1;
        }
        let s = PascalString { len: string_len, chars };
        assert(s@ =~= Seq::new(string_len as nat, |i: int| unit_of(char_array@[i])));
        Ok(s)
    }

    /// Create a new `PascalString` using the contents of `bytes`.
    ///
    /// Returns an `Err` if `bytes` is longer than 255 characters, or it does not contain
    /// Ascii encoded characters. The bytes are checked in full before any is
    /// copied.
    pub fn from(bytes: &[u8]) -> (r: Result<Self, PascalStringCreateError>)
        ensures
            create_post(bytes@, r),
    {
        let len = bytes.len();
        if len > PASCAL_STRING_BUF_SIZE {
            return Err(PascalStringCreateError::InputTooLong);
        }
        match check_ascii(bytes) {
            Ok(()) => {},
            Err(index) => {
                return Err(PascalStringCreateError::NotValidAscii(AsciiError::Str(index)));
            },
        }
        let mut chars = [0u8; 255];
        let mut i: usize = 0;
        while i < len
            invariant
                len == bytes@.len(),
                i <= len <= 255,
                all_ascii(bytes@),
                forall|j: int| 0 <= j < i ==> chars@[j] == bytes@[j],
                forall|j: int| i <= j < 255 ==> chars@[j] == 0,
            decreases len - i,
        {
            chars[i] = bytes[i];
            i += 1;
        }
        let s = PascalString { len: len as u8, chars };
        assert(s@ =~= bytes@);
        Ok(s)
    }

    /// Push an ascii character onto this string.
    ///
    /// The string must have room, and `character` must be ascii.
    pub fn push(&mut self, character: char)
        requires
            push_spec(old(self)@, character) is Ok,
        ensures
            final(self)@ == old(self)@.push(unit_of(character)),
            final(self).wf(),
    {
        let r = self.try_push(character);
        assert(r is Ok);
    }

    /// Attempt to push an ascii character onto the end of this `PascalString`.
    ///
    /// Returns `Err(_)` if the character cannot be pushed because this `PascalString` is full, or if
    /// `character` is not a valid ascii character. The string is then as it was,
    /// byte for byte.
    pub fn try_push(&mut self, character: char) -> (r: Result<(), PascalStringAppendError>)
        ensures
            match push_spec(old(self)@, character) {
                Ok(content) => r is Ok && final(self)@ == content,
                Err(e) => r == Err::<(), PascalStringAppendError>(e) && *final(self) == *old(self),
            },
            final(self).wf(),
    {
        proof {
            use_type_invariant(&*self);
        }
        if self.is_full() {
            return Err(PascalStringAppendError::NoRoom);
        }
        match to_ascii_unit(character) {
            Some(unit) => self._try_push(unit),
            None => Err(PascalStringAppendError::NotValidAscii(AsciiError::Char)),
        }
    }

    fn _try_push(&mut self, unit: u8) -> (r: Result<(), PascalStringAppendError>)
        requires
            unit < 0x80,
        ensures
            old(self)@.len() < PASCAL_STRING_BUF_SIZE ==> r is Ok && final(self)@ == old(self)@.push(unit),
            old(self)@.len() >= PASCAL_STRING_BUF_SIZE ==> r == Err::<(), PascalStringAppendError>(
                PascalStringAppendError::NoRoom,
            ) && *final(self) == *old(self),
            final(self).wf(),
    {
        proof {
            use_type_invariant(&*self);
        }
        if self.is_full() {
            return Err(PascalStringAppendError::NoRoom);
        }
        let idx = self.len as usize;
        let mut chars = self.chars;
        chars[idx] = unit;
        if idx + 1 < PASCAL_STRING_BUF_SIZE {
            chars[idx + 1] = 0;
        }
        *self = PascalString { len: self.len + 1, chars };
        assert(self@ =~= old(self)@.push(unit));
        Ok(())
    }

    /// Append a given string slice onto the end of this `PascalString`.
    ///
    /// The slice must be ascii, and the string must have room for all of it.
    pub fn push_str(&mut self, s: &str)
        requires
            is_ascii_chars(s@),
            old(self)@.len() + s@.len() <= PASCAL_STRING_BUF_SIZE,
        ensures
            final(self)@ == old(self)@ + chars_as_units(s@),
            final(self).wf(),
    {
        let r = self.try_push_str(s);
        assert(r is Ok) by {
            if !(r is Ok) {
                if let Err(PascalStringAppendError::NotValidAscii(AsciiError::Str(index))) = r {
                    assert(is_ascii_char(s@[index as int]));
                }
            }
        }
    }

    /// Attempt to append a given string slice onto the end of this `PascalString`.
    ///
    /// Returns `Err(_)` if the slice is not ascii, or if the string has no room for all of it.
    /// The slice is checked in full before anything is written, so the
    /// string is then as it was, byte for byte.
    pub fn try_push_str(&mut self, s: &str) -> (r: Result<(), PascalStringAppendError>)
        ensures
            append_text_post(old(self)@, s@, r, final(self)@),
            append_post(old(self)@, s.spec_bytes(), r, final(self)@),
            r is Err ==> *final(self) == *old(self),
            final(self).wf(),
    {
        let r = self._try_push_str(s.as_bytes());
        proof {
            if is_ascii_chars(s@) {
                lemma_ascii_chars_units(s@);
                if let Err(PascalStringAppendError::NotValidAscii(AsciiError::Str(index))) = r {
                    assert(s.spec_bytes()[index as int] < 0x80);
                }
            } else {
                let first = lemma_first_non_ascii_char_exists(s@);
                lemma_first_non_ascii_text(s@, first);
                assert(s.spec_bytes()[first] >= 0x80);
                if let Err(PascalStringAppendError::NotValidAscii(AsciiError::Str(index))) = r {
                    lemma_first_non_ascii_unique(s.spec_bytes(), first, index as int);
                }
            }
        }
        r
    }

    fn _try_push_str(&mut self, bytes: &[u8]) -> (r: Result<(), PascalStringAppendError>)
        ensures
            append_post(old(self)@, bytes@, r, final(self)@),
            r is Err ==> *final(self) == *old(self),
            final(self).wf(),
    {
        proof {
            use_type_invariant(&*self);
        }
        match check_ascii(bytes) {
            Ok(()) => {},
            Err(index) => {
                return Err(PascalStringAppendError::NotValidAscii(AsciiError::Str(index)));
            },
        }
        let slen = self.len as usize;
        let alen = bytes.len();
        if alen > PASCAL_STRING_BUF_SIZE - slen {
            return Err(PascalStringAppendError::NoRoom);
        }
        let mut chars = self.chars;
        let mut i: usize = 0;
        while i < alen
            invariant
                alen == bytes@.len(),
                slen == self.len,
                slen + alen <= 255,
                i <= alen,
                all_ascii(bytes@),
                forall|j: int| 0 <= j < 255 ==> #[trigger] chars@[j] < 0x80,
                forall|j: int| 0 <= j < slen ==> chars@[j] == self.chars@[j],
                forall|j: int| slen <= j < slen + i ==> chars@[j] == bytes@[j - slen],
            decreases alen - i,
        {
            chars[i + slen] = bytes[i];
            i += 1;
        }
        let new_len = slen + alen;
        if new_len < PASCAL_STRING_BUF_SIZE {
            chars[new_len] = 0;
        }
        *self = PascalString { len: new_len as u8, chars };
        assert(self@ =~= old(self)@ + bytes@);
        Ok(())
    }

    /// Removes the last character from the string buffer and returns it.
    ///
    /// Returns `None` if this `PascalString` is empty.
    pub fn pop(&mut self) -> (r: Option<u8>)
        ensures
            match r {
                Some(unit) => {
                    &&& old(self)@.len() > 0
                    &&& unit == old(self)@.last()
                    &&& final(self)@ == old(self)@.drop_last()
                },
                None => old(self)@.len() == 0 && *final(self) == *old(self),
            },
            final(self).wf(),
    {
        proof {
            use_type_invariant(&*self);
        }
        if self.is_empty() {
            return None;
        }
        let last = self.len as usize - 1;
        let mut chars = self.chars;
        let c = chars[last];
        chars[last] = 0;
        *self = PascalString { len: self.len - 1, chars };
        assert(self@ =~= old(self)@.drop_last());
        Some(c)
    }

    /// Remove a character from the string at `index`, and return it. The
    /// characters after it move one place to the left; those before it stay.
    ///
    /// `index` must be the place of a character: below `self.len()`.
    pub fn remove(&mut self, index: u8) -> (r: u8)
        requires
            index < old(self)@.len(),
        ensures
            r == old(self)@[index as int],
            final(self)@ == old(self)@.remove(index as int),
            final(self).wf(),
    {
        proof {
            use_type_invariant(&*self);
        }
        let len = self.len as usize;
        let mut chars = self.chars;
        let c = chars[index as usize];
        let mut i: usize = index as usize;
        while i + 1 < len
            invariant
                len == self.len,
                index <= i < len,
                forall|j: int| 0 <= j < 255 ==> #[trigger] self.chars@[j] < 0x80,
                forall|j: int| 0 <= j < index ==> chars@[j] == self.chars@[j],
                forall|j: int| index <= j < i ==> chars@[j] == self.chars@[j + 1],
                forall|j: int| i <= j < 255 ==> chars@[j] == self.chars@[j],
            decreases len - i,
        {
            chars[i] = chars[i + 1];
            i += 1;
        }
        chars[len - 1] = 0;
        *self = PascalString { len: self.len - 1, chars };
        assert(self@ =~= old(self)@.remove(index as int));
        c
    }

    /// Insert a character into the string at `index`. The characters from
    /// `index` on move one place to the right; those before it stay.
    ///
    /// `index` must be at most `self.len()`, the string must have room, and
    /// `ch` must be ascii.
    pub fn insert(&mut self, ch: char, index: u8)
        requires
            is_ascii_char(ch),
            index <= old(self)@.len(),
            old(self)@.len() < PASCAL_STRING_BUF_SIZE,
        ensures
            final(self)@ == old(self)@.insert(index as int, unit_of(ch)),
            final(self).wf(),
    {
        let unit = to_ascii_unit(ch);
        self._insert(unit.unwrap(), index)
    }

    fn _insert(&mut self, unit: u8, index: u8)
        requires
            unit < 0x80,
            index <= old(self)@.len(),
            old(self)@.len() < PASCAL_STRING_BUF_SIZE,
        ensures
            final(self)@ == old(self)@.insert(index as int, unit),
            final(self).wf(),
    {
        proof {
            use_type_invariant(&*self);
        }
        let len = self.len as usize;
        let mut chars = self.chars;
        let mut i: usize = len;
        while i > index as usize
            invariant
                len == self.len,
                len < 255,
                index <= i <= len,
                forall|j: int| 0 <= j < 255 ==> #[trigger] self.chars@[j] < 0x80,
                forall|j: int| 0 <= j <= i ==> chars@[j] == self.chars@[j],
                forall|j: int| i < j <= len ==> chars@[j] == self.chars@[j - 1],
                forall|j: int| len < j < 255 ==> chars@[j] == self.chars@[j],
            decreases i,
        {
            chars[i] = chars[i - 1];
            i -= 1;
        }
        chars[index as usize] = unit;
        if len + 1 < PASCAL_STRING_BUF_SIZE {
            chars[len + 1] = 0;
        }
        *self = PascalString { len: self.len + 1, chars };
        assert(self@ =~= old(self)@.insert(index as int, unit));
    }

    /// Puts `ch` in the place of the character at `index`. The other
    /// characters, the length, and the buffer after the characters stay.
    ///
    /// `index` must be the place of a character: below `self.len()`. `ch`
    /// must be ascii.
    pub fn set(&mut self, index: u8, ch: char)
        requires
            index < old(self)@.len(),
            is_ascii_char(ch),
        ensures
            final(self)@ == old(self)@.update(index as int, unit_of(ch)),
            final(self).storage() == old(self).storage().update(index as int, unit_of(ch)),
            final(self).wf(),
    {
        proof {
            use_type_invariant(&*self);
        }
        let unit = to_ascii_unit(ch).unwrap();
        let mut chars = self.chars;
        chars[index as usize] = unit;
        *self = PascalString { len: self.len, chars };
        assert(self@ =~= old(self)@.update(index as int, unit_of(ch)));
    }

    /// Truncates this String, removing all contents.
    ///
    /// Does not zero the values of the string: but for the first unit, which
    /// becomes the null that follows the new, empty content, the buffer
    /// keeps what it held.
    pub fn clear(&mut self)
        ensures
            final(self)@ == Seq::<u8>::empty(),
            final(self).storage() == old(self).storage().update(0, 0u8),
            final(self).wf(),
    {
        proof {
            use_type_invariant(&*self);
        }
        let mut chars = self.chars;
        chars[0] = 0;
        *self = PascalString { len: 0, chars };
        assert(self@ =~= Seq::<u8>::empty());
    }

    /// Consumes this `PascalString`, and returns its inner state as a `[u8; 256]`, where the first byte
    /// is the length.
    ///
    /// Note that if the string has been truncated, bytes beyond the end of the string will not have been
    /// zeroed. They are ascii all the same: the buffer never holds anything else.
    pub fn to_array(self) -> (array: [u8; 256])
        ensures
            array@[0] == self@.len(),
            array@.subrange(1, 256) == self.storage(),
            array@.subrange(1, self@.len() as int + 1) == self@,
            self@.len() < PASCAL_STRING_BUF_SIZE ==> array@[self@.len() as int + 1] == 0,
            forall|i: int| 1 <= i < 256 ==> #[trigger] array@[i] < 0x80,
    {
        proof {
            use_type_invariant(&self);
        }
        let mut array = [0u8; 256];
        array[0] = self.len;
        let mut i: usize = 0;
        while i < PASCAL_STRING_BUF_SIZE
            invariant
                i <= 255,
                array@[0] == self.len,
                forall|j: int| 0 <= j < i ==> array@[j + 1] == self.chars@[j],
                forall|j: int| 0 <= j < 255 ==> #[trigger] self.chars@[j] < 0x80,
            decreases 255 - i,
        {
            array[i + 1] = self.chars[i];
            i += 1;
        }
        assert(array@.subrange(1, 256) =~= self.storage());
        assert(array@.subrange(1, self@.len() as int + 1) =~= self@);
        assert forall|i: int| 1 <= i < 256 implies #[trigger] array@[i] < 0x80 by {
            assert(self.chars@[i - 1] < 0x80);
        }
        array
    }

    /// Get a character in the string, without checking if the index is within the bounds of `len()`.
    ///
    /// It can give access to stale characters if `index` is greater than
    /// or equal to `len()`. `index` must be within the buffer: below 255.
    pub fn get_unchecked(&self, index: u8) -> (r: u8)
        requires
            index < PASCAL_STRING_BUF_SIZE,
        ensures
            r == self.storage()[index as int],
            r < 0x80,
    {
        proof {
            use_type_invariant(self);
        }
        self.chars[index as usize]
    }
    /// Collects characters into a string. A character that cannot be
    /// pushed is dropped: it is kinder to drop characters past the 255th
    /// index, and those that are not ascii, than to fail.
    pub fn from_iter(chars: &[char]) -> (s: Self)
        ensures
            s@ == push_each(Seq::<u8>::empty(), chars@),
            s.wf(),
    {
        let mut pstring = PascalString::new();
        let mut i: usize = 0;
        assert(chars@.skip(0) =~= chars@);
        while i < chars.len()
            invariant
                i <= chars@.len(),
                push_each(pstring@, chars@.skip(i as int)) == push_each(
                    Seq::<u8>::empty(),
                    chars@,
                ),
                pstring.wf(),
            decreases chars@.len() - i,
        {
            proof {
                assert(chars@.skip(i as int).drop_first() =~= chars@.skip(i + 1));
            }
            let _ = pstring.try_push(chars[i]);
            i += 1;
        }
        pstring
    }

    /// Borrows the string: the view of all of its characters, which knows
    /// of the null that the buffer keeps after them unless the string is
    /// full.
    pub fn as_pascal_str(&self) -> (s: PascalStr<'_>)
        ensures
            s@ == self@,
            s.null_follows() == (self@.len() < PASCAL_STRING_BUF_SIZE),
            s.wf(),
    {
        proof {
            use_type_invariant(self);
        }
        let len = self.len as usize;
        let end = if len < PASCAL_STRING_BUF_SIZE {
            len + 1
        } else {
            len
        };
        let all: &[u8] = &self.chars;
        let units = &all[0..end];
        assert forall|i: int| 0 <= i < len implies #[trigger] units@.subrange(0, len as int)[i]
            < 0x80 by {
            assert(self.chars@[i] < 0x80);
        }
        let s = PascalStr::new(units, len);
        assert(s@ =~= self@);
        s
    }

    /// Borrows the string mutably: the view that can write the characters in
    /// place and cannot change the length. What it writes is in the string
    /// when the view is let go.
    pub fn as_mut_pascal_str(&mut self) -> (s: PascalStrMut<'_>)
        ensures
            *s.string == *old(self),
            *final(s.string) == *final(self),
    {
        PascalStrMut { string: self }
    }

    /// Get the string as its bytes.
    pub fn as_bytes(&self) -> (bytes: &[u8])
        ensures
            bytes@ == self@,
            bytes@.len() <= PASCAL_STRING_BUF_SIZE,
            all_ascii(bytes@),
    {
        self.as_pascal_str().as_bytes()
    }

    /// Get the string as an immutable `&str` reference.
    pub fn as_str(&self) -> (text: &str)
        ensures
            text@ == units_as_chars(self@),
            text.spec_bytes() == self@,
    {
        self.as_pascal_str().as_str()
    }

    /// Get this string as the bytes of a C string: null-terminated, with no
    /// null before the end.
    ///
    /// Returns `Err(InteriorNullError)` if the string contains any interior nulls. The bytes are
    /// borrowed from this string, unless it is full and does not end in a
    /// null: then a new buffer is allocated to hold the trailing null byte.
    pub fn as_cstr(&self) -> (r: Result<Cow<'_, [u8]>, InteriorNullError>)
        ensures
            as_cstr_post(self@, self@.len() < PASCAL_STRING_BUF_SIZE, r),
    {
        self.as_pascal_str().as_cstr()
    }

    /// Get an immutable iterator to the internal character array.
    pub fn chars(&self) -> (chars: Chars<'_>)
        ensures
            chars.remaining() == self@,
    {
        self.as_pascal_str().chars()
    }

    /// Get a mutable iterator to the internal character array. What it
    /// puts into the string is in the string when the iterator is let go.
    pub fn chars_mut(&mut self) -> (chars: CharsMut<'_>)
        ensures
            *chars.string == *old(self),
            chars.position == 0,
            *final(chars.string) == *final(self),
    {
        CharsMut { string: self, position: 0 }
    }

    /// Get an iterator over the lines of the internal character array.
    pub fn lines(&self) -> (lines: Lines<'_>)
        ensures
            lines.remaining() == self@,
    {
        self.as_pascal_str().lines()
    }

    /// Consumes the string, and gives an iterator over its characters, from
    /// the first to the last.
    pub fn into_iter(self) -> (chars: IntoChars)
        ensures
            chars.remaining() == self@,
    {
        proof {
            use_type_invariant(&self);
        }
        IntoChars { string: self, front: 0 }
    }

    /// Whether the string is ascii: it always is.
    pub fn is_ascii(&self) -> (b: bool)
        ensures
            b,
            all_ascii(self@),
    {
        proof {
            use_type_invariant(self);
        }
        true
    }

    /// A copy of the string with its letters in upper case.
    pub fn to_ascii_uppercase(&self) -> (upper: Self)
        ensures
            upper@ == upper_of(self@),
            upper.wf(),
    {
        let mut upper = *self;
        upper.make_ascii_uppercase();
        upper
    }

    /// A copy of the string with its letters in lower case.
    pub fn to_ascii_lowercase(&self) -> (lower: Self)
        ensures
            lower@ == lower_of(self@),
            lower.wf(),
    {
        let mut lower = *self;
        lower.make_ascii_lowercase();
        lower
    }

    /// Whether the two strings are the same but for the case of their
    /// letters.
    pub fn eq_ignore_ascii_case(&self, other: &Self) -> (b: bool)
        ensures
            b == same_ignoring_case(self@, other@),
    {
        eq_ignore_case(self.as_bytes(), other.as_bytes())
    }

    /// Puts the letters of the string in upper case. The length stays, and so
    /// does the buffer after the characters.
    pub fn make_ascii_uppercase(&mut self)
        ensures
            final(self)@ == upper_of(old(self)@),
            final(self).storage() == upper_of(old(self)@) + old(self).storage().subrange(
                old(self)@.len() as int,
                PASCAL_STRING_BUF_SIZE as int,
            ),
            final(self).wf(),
    {
        proof {
            use_type_invariant(&*self);
        }
        let len = self.len as usize;
        let mut chars = self.chars;
        let mut i: usize = 0;
        while i < len
            invariant
                len == self.len,
                i <= len,
                forall|j: int| 0 <= j < 255 ==> #[trigger] self.chars@[j] < 0x80,
                forall|j: int|
                    0 <= j < i ==> chars@[j] == to_upper(self.chars@[j]) && chars@[j] < 0x80,
                forall|j: int| i <= j < 255 ==> chars@[j] == self.chars@[j],
            decreases len - i,
        {
            chars[i] = ascii_uppercase(chars[i]);
            i += 1;
        }
        *self = PascalString { len: self.len, chars };
        assert(self@ =~= upper_of(old(self)@));
        assert(self.storage() =~= upper_of(old(self)@) + old(self).storage().subrange(
            old(self)@.len() as int,
            PASCAL_STRING_BUF_SIZE as int,
        ));
    }

    /// Puts the letters of the string in lower case. The length stays, and so
    /// does the buffer after the characters.
    pub fn make_ascii_lowercase(&mut self)
        ensures
            final(self)@ == lower_of(old(self)@),
            final(self).storage() == lower_of(old(self)@) + old(self).storage().subrange(
                old(self)@.len() as int,
                PASCAL_STRING_BUF_SIZE as int,
            ),
            final(self).wf(),
    {
        proof {
            use_type_invariant(&*self);
        }
        let len = self.len as usize;
        let mut chars = self.chars;
        let mut i: usize = 0;
        while i < len
            invariant
                len == self.len,
                i <= len,
                forall|j: int| 0 <= j < 255 ==> #[trigger] self.chars@[j] < 0x80,
                forall|j: int|
                    0 <= j < i ==> chars@[j] == to_lower(self.chars@[j]) && chars@[j] < 0x80,
                forall|j: int| i <= j < 255 ==> chars@[j] == self.chars@[j],
            decreases len - i,
        {
            chars[i] = ascii_lowercase(chars[i]);
            i += 1;
        }
        *self = PascalString { len: self.len, chars };
        assert(self@ =~= lower_of(old(self)@));
        assert(self.storage() =~= lower_of(old(self)@) + old(self).storage().subrange(
            old(self)@.len() as int,
            PASCAL_STRING_BUF_SIZE as int,
        ));
    }

    /// The string as a heap-allocated `String`.
    pub fn to_string(&self) -> (text: String)
        ensures
            text@ == units_as_chars(self@),
    {
        self.as_str().to_owned()
    }

    /// The bytes of the string, in a `Vec`.
    pub fn into_bytes(self) -> (bytes: Vec<u8>)
        ensures
            bytes@ == self@,
    {
        vstd::slice::slice_to_vec(self.as_bytes())
    }
}

impl Default for PascalString {
    /// The empty string.
    fn default() -> (s: Self)
        ensures
            s@ == Seq::<u8>::empty(),
            s.wf(),
    {
        PascalString::new()
    }
}

/// A mutable iterator over the buffer of a `PascalString`. It gives the
/// characters from the first to the last, and can put another character in
/// the place of the one that it gave last; the length of the string stays.
#[derive(Debug)]
pub struct CharsMut<'a> {
    /// The string that is walked.
    pub string: &'a mut PascalString,
    /// How many characters were given so far.
    pub position: usize,
}

impl<'a> CharsMut<'a> {
    /// The next character, from the front. The string stays as it is.
    pub fn next(&mut self) -> (r: Option<u8>)
        ensures
            *final(self).string == *old(self).string,
            *final(final(self).string) == *final(old(self).string),
            match r {
                Some(unit) => {
                    &&& old(self).position < old(self).string@.len()
                    &&& unit == old(self).string@[old(self).position as int]
                    &&& unit < 0x80
                    &&& final(self).position == old(self).position + 1
                },
                None => {
                    &&& old(self).position >= old(self).string@.len()
                    &&& final(self).position == old(self).position
                },
            },
    {
        let units = self.string.as_bytes();
        if self.position >= units.len() {
            return None;
        }
        let unit = units[self.position];
        self.position = self.position + 1;
        Some(unit)
    }

    /// The number of characters that are still to come.
    pub fn len(&self) -> (n: usize)
        ensures
            n == if self.position <= old(self.string)@.len() {
                old(self.string)@.len() - self.position
            } else {
                0
            },
    {
        let len = self.string.len();
        if self.position <= len {
            len - self.position
        } else {
            0
        }
    }

    /// Puts `ch` in the place of the character that `next` gave last. The
    /// other characters, the buffer after the characters, and the place of
    /// the iterator stay.
    ///
    /// `next` must have given a character, and `ch` must be ascii.
    pub fn set(&mut self, ch: char)
        requires
            0 < old(self).position <= old(self).string@.len(),
            is_ascii_char(ch),
        ensures
            final(self).string@ == old(self).string@.update(
                old(self).position - 1,
                unit_of(ch),
            ),
            final(self).string.storage() == old(self).string.storage().update(
                old(self).position - 1,
                unit_of(ch),
            ),
            final(self).string.wf(),
            *final(final(self).string) == *final(old(self).string),
            final(self).position == old(self).position,
    {
        let len = self.string.len();
        self.string.set((self.position - 1) as u8, ch);
    }
}

/// An iterator from a `PascalString`. Has ownership of the iterated `PascalString`.
#[derive(Clone, Copy, Debug)]
pub struct IntoChars {
    string: PascalString,
    front: u8,
}

impl IntoChars {
    #[verifier::type_invariant]
    spec fn well_formed(self) -> bool {
        self.string.wf() && self.front <= self.string.len
    }

    /// The characters that are still to come, in the order in which they
    /// come.
    pub closed spec fn remaining(&self) -> Seq<u8> {
        self.string.chars@.subrange(self.front as int, self.string.len as int)
    }

    /// The next character, from the front: characters come in the order in
    /// which they stand in the string.
    pub fn next(&mut self) -> (r: Option<u8>)
        ensures
            match r {
                Some(unit) => {
                    &&& old(self).remaining().len() > 0
                    &&& unit == old(self).remaining()[0]
                    &&& unit < 0x80
                    &&& final(self).remaining() == old(self).remaining().drop_first()
                },
                None => old(self).remaining().len() == 0 && *final(self) == *old(self),
            },
    {
        proof {
            use_type_invariant(&*self);
        }
        if self.front >= self.string.len {
            return None;
        }
        let unit = self.string.chars[self.front as usize];
        *self = IntoChars { string: self.string, front: self.front + 1 };
        assert(self.remaining() =~= old(self).remaining().drop_first());
        Some(unit)
    }

    /// The number of characters that are still to come.
    pub fn len(&self) -> (n: usize)
        ensures
            n == self.remaining().len(),
    {
        proof {
            use_type_invariant(self);
        }
        (self.string.len - self.front) as usize
    }
}

} // verus!
