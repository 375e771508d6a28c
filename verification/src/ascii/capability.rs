//! What an ASCII string can do, owned or borrowed.
use vstd::prelude::*;
use crate::ascii::codec::{all_ascii, lower_of, same_ignoring_case, upper_of};
use crate::ascii::pascal_str::PascalStr;
use crate::ascii::pascal_string::PascalString;
use crate::PASCAL_STRING_BUF_SIZE;

verus! {

/// The capabilities that the owned and the borrowed ASCII string share:
/// their length, and the case of their letters.
pub trait AsciiText: Sized {
    /// The characters of the string, in order.
    spec fn units(&self) -> Seq<u8>;

    /// The number of characters of the string.
    fn len(&self) -> (n: usize)
        ensures
            n == self.units().len(),
            n <= PASCAL_STRING_BUF_SIZE,
    ;

    /// Whether the string has no characters.
    fn is_empty(&self) -> (b: bool)
        ensures
            b == (self.units().len() == 0),
    ;

    /// Whether the string has 255 characters, and so room for no more.
    fn is_full(&self) -> (b: bool)
        ensures
            b == (self.units().len() == PASCAL_STRING_BUF_SIZE),
    ;

    /// Whether the string is ascii: it always is.
    fn is_ascii(&self) -> (b: bool)
        ensures
            b,
            all_ascii(self.units()),
    ;

    /// A copy of the string with its letters in upper case.
    fn to_ascii_uppercase(&self) -> (upper: PascalString)
        ensures
            upper@ == upper_of(self.units()),
    ;

    /// A copy of the string with its letters in lower case.
    fn to_ascii_lowercase(&self) -> (lower: PascalString)
        ensures
            lower@ == lower_of(self.units()),
    ;

    /// Whether the two strings are the same but for the case of their
    /// letters.
    fn eq_ignore_ascii_case(&self, other: &Self) -> (b: bool)
        ensures
            b == same_ignoring_case(self.units(), other.units()),
    ;
}

impl AsciiText for PascalString {
    open spec fn units(&self) -> Seq<u8> {
        self@
    }

    fn len(&self) -> (n: usize) {
        PascalString::len(self)
    }

    fn is_empty(&self) -> (b: bool) {
        PascalString::is_empty(self)
    }

    fn is_full(&self) -> (b: bool) {
        PascalString::is_full(self)
    }

    fn is_ascii(&self) -> (b: bool) {
        PascalString::is_ascii(self)
    }

    fn to_ascii_uppercase(&self) -> (upper: PascalString) {
        PascalString::to_ascii_uppercase(self)
    }

    fn to_ascii_lowercase(&self) -> (lower: PascalString) {
        PascalString::to_ascii_lowercase(self)
    }

    fn eq_ignore_ascii_case(&self, other: &Self) -> (b: bool) {
        PascalString::eq_ignore_ascii_case(self, other)
    }
}

impl<'a> AsciiText for PascalStr<'a> {
    open spec fn units(&self) -> Seq<u8> {
        self@
    }

    fn len(&self) -> (n: usize) {
        PascalStr::len(self)
    }

    fn is_empty(&self) -> (b: bool) {
        PascalStr::is_empty(self)
    }

    fn is_full(&self) -> (b: bool) {
        PascalStr::is_full(self)
    }

    fn is_ascii(&self) -> (b: bool) {
        PascalStr::is_ascii(self)
    }

    fn to_ascii_uppercase(&self) -> (upper: PascalString) {
        PascalStr::to_ascii_uppercase(self)
    }

    fn to_ascii_lowercase(&self) -> (lower: PascalString) {
        PascalStr::to_ascii_lowercase(self)
    }

    fn eq_ignore_ascii_case(&self, other: &Self) -> (b: bool) {
        PascalStr::eq_ignore_ascii_case(self, other)
    }
}

} // verus!
