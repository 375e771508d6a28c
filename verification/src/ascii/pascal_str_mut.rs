//! The mutably borrowed ASCII string.
use vstd::prelude::*;
use crate::ascii::codec::{is_ascii_char, lower_of, unit_of, upper_of};
use crate::ascii::pascal_str::PascalStr;
use crate::ascii::pascal_string::{CharsMut, PascalString};
use crate::PASCAL_STRING_BUF_SIZE;

verus! {

/// A mutable borrow of a `PascalString`. It reads the characters as a
/// `PascalStr` does, and writes them in place; what it offers cannot change
/// the length of the string, nor the buffer after the characters.
#[derive(Debug)]
pub struct PascalStrMut<'a> {
    /// The string that is borrowed.
    pub string: &'a mut PascalString,
}

impl<'a> PascalStrMut<'a> {
    /// Borrows the string for reading.
    pub fn as_pascal_str(&self) -> (s: PascalStr<'_>)
        ensures
            s@ == old(self.string)@,
            s.null_follows() == (old(self.string)@.len() < PASCAL_STRING_BUF_SIZE),
            s.wf(),
    {
        self.string.as_pascal_str()
    }

    /// Returns the number of characters used in the string.
    pub fn len(&self) -> (n: usize)
        ensures
            n == old(self.string)@.len(),
            n <= PASCAL_STRING_BUF_SIZE,
    {
        self.string.len()
    }

    /// Puts `ch` in the place of the character at `index`. The other
    /// characters, the length, and the buffer after the characters stay.
    ///
    /// `index` must be the place of a character: below `self.len()`. `ch`
    /// must be ascii.
    pub fn set(&mut self, index: u8, ch: char)
        requires
            index < old(self).string@.len(),
            is_ascii_char(ch),
        ensures
            final(self).string@ == old(self).string@.update(index as int, unit_of(ch)),
            final(self).string.storage() == old(self).string.storage().update(
                index as int,
                unit_of(ch),
            ),
            final(self).string.wf(),
            *final(final(self).string) == *final(old(self).string),
    {
        self.string.set(index, ch);
    }

    /// Get a mutable iterator to the internal character array. What it
    /// puts into the string is in the string when the iterator is let go.
    pub fn chars_mut(&mut self) -> (chars: CharsMut<'_>)
        ensures
            *chars.string == *old(self).string,
            chars.position == 0,
            *final(chars.string) == *final(self).string,
            *final(final(self).string) == *final(old(self).string),
    {
        CharsMut { string: &mut *self.string, position: 0 }
    }

    /// Puts the letters of the string in upper case. The length stays, and so
    /// does the buffer after the characters.
    pub fn make_ascii_uppercase(&mut self)
        ensures
            final(self).string@ == upper_of(old(self).string@),
            final(self).string.storage() == upper_of(old(self).string@) + old(
                self,
            ).string.storage().subrange(
                old(self).string@.len() as int,
                PASCAL_STRING_BUF_SIZE as int,
            ),
            final(self).string.wf(),
            *final(final(self).string) == *final(old(self).string),
    {
        self.string.make_ascii_uppercase();
    }

    /// Puts the letters of the string in lower case. The length stays, and so
    /// does the buffer after the characters.
    pub fn make_ascii_lowercase(&mut self)
        ensures
            final(self).string@ == lower_of(old(self).string@),
            final(self).string.storage() == lower_of(old(self).string@) + old(
                self,
            ).string.storage().subrange(
                old(self).string@.len() as int,
                PASCAL_STRING_BUF_SIZE as int,
            ),
            final(self).string.wf(),
            *final(final(self).string) == *final(old(self).string),
    {
        self.string.make_ascii_lowercase();
    }
}

} // verus!
