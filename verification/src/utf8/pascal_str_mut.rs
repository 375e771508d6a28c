//! The mutably borrowed UTF-8 string.
use vstd::prelude::*;
use crate::ascii::codec::{lower_of, upper_of};
use crate::utf8::pascal_str::PascalStr;
use crate::utf8::pascal_string::PascalString;
use crate::PASCAL_STRING_BUF_SIZE;

verus! {

/// A mutable borrow of a `PascalString`. It reads the text as a `PascalStr`
/// does, and writes in place what keeps the bytes valid UTF-8 and their
/// number the same: the case of the ascii letters.
#[derive(Debug)]
pub struct PascalStrMut<'a> {
    /// The string that is borrowed.
    pub string: &'a mut PascalString,
}

impl<'a> PascalStrMut<'a> {
    /// Borrows the string for reading.
    pub fn as_pascal_str(&self) -> (s: PascalStr<'_>)
        ensures
            s@ == old(self.string)@,
            s.spec_bytes() == old(self.string).spec_bytes(),
            s.wf(),
    {
        self.string.as_pascal_str()
    }

    /// Returns the number of bytes used in the string.
    pub fn len(&self) -> (n: usize)
        ensures
            n == old(self.string).spec_bytes().len(),
            n <= PASCAL_STRING_BUF_SIZE,
    {
        self.string.len()
    }

    /// Puts the ascii letters of the string in upper case. Every other
    /// byte stays, and so do the length and the buffer after the used
    /// bytes.
    pub fn make_ascii_uppercase(&mut self)
        ensures
            final(self).string.spec_bytes() == upper_of(old(self).string.spec_bytes()),
            final(self).string.storage() == upper_of(old(self).string.spec_bytes()) + old(
                self,
            ).string.storage().subrange(
                old(self).string.spec_bytes().len() as int,
                PASCAL_STRING_BUF_SIZE as int,
            ),
            final(self).string.wf(),
            *final(final(self).string) == *final(old(self).string),
    {
        self.string.make_ascii_uppercase();
    }

    /// Puts the ascii letters of the string in lower case. Every other
    /// byte stays, and so do the length and the buffer after the used
    /// bytes.
    pub fn make_ascii_lowercase(&mut self)
        ensures
            final(self).string.spec_bytes() == lower_of(old(self).string.spec_bytes()),
            final(self).string.storage() == lower_of(old(self).string.spec_bytes()) + old(
                self,
            ).string.storage().subrange(
                old(self).string.spec_bytes().len() as int,
                PASCAL_STRING_BUF_SIZE as int,
            ),
            final(self).string.wf(),
            *final(final(self).string) == *final(old(self).string),
    {
        self.string.make_ascii_lowercase();
    }
}

} // verus!
