//! Equality and order of UTF-8 strings: those of their bytes, which are
//! those of their text. An owned and a borrowed string compare with each
//! other as two of a kind do, and both compare with text.
use std::cmp::Ordering;
use vstd::prelude::*;
use vstd::std_specs::cmp::{PartialEqSpecImpl, PartialOrdSpecImpl};
use vstd::string::StringSliceAdditionalSpecFns;
use vstd::utf8::encode_utf8_decode_utf8;
use crate::compare::{compare_units, lex_order, units_eq};
use crate::utf8::pascal_str::PascalStr;
use crate::utf8::pascal_string::PascalString;

verus! {

impl PartialEq for PascalString {
    /// Two strings are equal where they hold the same bytes, and so the same
    /// text, whatever else their buffers hold.
    fn eq(&self, other: &PascalString) -> (r: bool) {
        units_eq(self.as_bytes(), other.as_bytes())
    }
}

impl PartialEqSpecImpl for PascalString {
    open spec fn obeys_eq_spec() -> bool {
        true
    }

    open spec fn eq_spec(&self, other: &PascalString) -> bool {
        self.spec_bytes() == other.spec_bytes()
    }
}

impl PartialOrd for PascalString {
    /// Strings are ordered as the dictionary orders their bytes.
    fn partial_cmp(&self, other: &PascalString) -> (r: Option<Ordering>) {
        let order = compare_units(self.as_bytes(), other.as_bytes());
        if order < 0 {
            Some(Ordering::Less)
        } else if order == 0 {
            Some(Ordering::Equal)
        } else {
            Some(Ordering::Greater)
        }
    }
}

impl PartialOrdSpecImpl for PascalString {
    open spec fn obeys_partial_cmp_spec() -> bool {
        true
    }

    open spec fn partial_cmp_spec(&self, other: &PascalString) -> Option<Ordering> {
        if lex_order(self.spec_bytes(), other.spec_bytes()) < 0 {
            Some(Ordering::Less)
        } else if lex_order(self.spec_bytes(), other.spec_bytes()) == 0 {
            Some(Ordering::Equal)
        } else {
            Some(Ordering::Greater)
        }
    }
}

impl Eq for PascalString {

}

impl<'a> PartialEq for PascalStr<'a> {
    /// Two strings are equal where they hold the same bytes, and so the same
    /// text, whatever else their buffers hold.
    fn eq(&self, other: &PascalStr<'a>) -> (r: bool) {
        units_eq(self.as_bytes(), other.as_bytes())
    }
}

impl<'a> PartialEqSpecImpl for PascalStr<'a> {
    open spec fn obeys_eq_spec() -> bool {
        true
    }

    open spec fn eq_spec(&self, other: &PascalStr<'a>) -> bool {
        self.spec_bytes() == other.spec_bytes()
    }
}

impl<'a> PartialOrd for PascalStr<'a> {
    /// Strings are ordered as the dictionary orders their bytes.
    fn partial_cmp(&self, other: &PascalStr<'a>) -> (r: Option<Ordering>) {
        let order = compare_units(self.as_bytes(), other.as_bytes());
        if order < 0 {
            Some(Ordering::Less)
        } else if order == 0 {
            Some(Ordering::Equal)
        } else {
            Some(Ordering::Greater)
        }
    }
}

impl<'a> PartialOrdSpecImpl for PascalStr<'a> {
    open spec fn obeys_partial_cmp_spec() -> bool {
        true
    }

    open spec fn partial_cmp_spec(&self, other: &PascalStr<'a>) -> Option<Ordering> {
        if lex_order(self.spec_bytes(), other.spec_bytes()) < 0 {
            Some(Ordering::Less)
        } else if lex_order(self.spec_bytes(), other.spec_bytes()) == 0 {
            Some(Ordering::Equal)
        } else {
            Some(Ordering::Greater)
        }
    }
}

impl<'a> Eq for PascalStr<'a> {

}

impl<'a> PartialEq<PascalStr<'a>> for PascalString {
    /// Two strings are equal where they hold the same bytes, and so the same
    /// text, whatever else their buffers hold.
    fn eq(&self, other: &PascalStr<'a>) -> (r: bool) {
        units_eq(self.as_bytes(), other.as_bytes())
    }
}

impl<'a> PartialEqSpecImpl<PascalStr<'a>> for PascalString {
    open spec fn obeys_eq_spec() -> bool {
        true
    }

    open spec fn eq_spec(&self, other: &PascalStr<'a>) -> bool {
        self.spec_bytes() == other.spec_bytes()
    }
}

impl<'a> PartialOrd<PascalStr<'a>> for PascalString {
    /// Strings are ordered as the dictionary orders their bytes.
    fn partial_cmp(&self, other: &PascalStr<'a>) -> (r: Option<Ordering>) {
        let order = compare_units(self.as_bytes(), other.as_bytes());
        if order < 0 {
            Some(Ordering::Less)
        } else if order == 0 {
            Some(Ordering::Equal)
        } else {
            Some(Ordering::Greater)
        }
    }
}

impl<'a> PartialOrdSpecImpl<PascalStr<'a>> for PascalString {
    open spec fn obeys_partial_cmp_spec() -> bool {
        true
    }

    open spec fn partial_cmp_spec(&self, other: &PascalStr<'a>) -> Option<Ordering> {
        if lex_order(self.spec_bytes(), other.spec_bytes()) < 0 {
            Some(Ordering::Less)
        } else if lex_order(self.spec_bytes(), other.spec_bytes()) == 0 {
            Some(Ordering::Equal)
        } else {
            Some(Ordering::Greater)
        }
    }
}

impl<'a> PartialEq<PascalString> for PascalStr<'a> {
    /// Two strings are equal where they hold the same bytes, and so the same
    /// text, whatever else their buffers hold.
    fn eq(&self, other: &PascalString) -> (r: bool) {
        units_eq(self.as_bytes(), other.as_bytes())
    }
}

impl<'a> PartialEqSpecImpl<PascalString> for PascalStr<'a> {
    open spec fn obeys_eq_spec() -> bool {
        true
    }

    open spec fn eq_spec(&self, other: &PascalString) -> bool {
        self.spec_bytes() == other.spec_bytes()
    }
}

impl<'a> PartialOrd<PascalString> for PascalStr<'a> {
    /// Strings are ordered as the dictionary orders their bytes.
    fn partial_cmp(&self, other: &PascalString) -> (r: Option<Ordering>) {
        let order = compare_units(self.as_bytes(), other.as_bytes());
        if order < 0 {
            Some(Ordering::Less)
        } else if order == 0 {
            Some(Ordering::Equal)
        } else {
            Some(Ordering::Greater)
        }
    }
}

impl<'a> PartialOrdSpecImpl<PascalString> for PascalStr<'a> {
    open spec fn obeys_partial_cmp_spec() -> bool {
        true
    }

    open spec fn partial_cmp_spec(&self, other: &PascalString) -> Option<Ordering> {
        if lex_order(self.spec_bytes(), other.spec_bytes()) < 0 {
            Some(Ordering::Less)
        } else if lex_order(self.spec_bytes(), other.spec_bytes()) == 0 {
            Some(Ordering::Equal)
        } else {
            Some(Ordering::Greater)
        }
    }
}

impl<'b> PartialEq<&'b str> for PascalString {
    /// A string is equal to its text.
    fn eq(&self, other: &&'b str) -> (r: bool) {
        let text = self.as_str();
        proof {
            encode_utf8_decode_utf8(text@);
            encode_utf8_decode_utf8(other@);
        }
        units_eq(text.as_bytes(), other.as_bytes())
    }
}

impl<'b> PartialEqSpecImpl<&'b str> for PascalString {
    open spec fn obeys_eq_spec() -> bool {
        true
    }

    open spec fn eq_spec(&self, other: &&'b str) -> bool {
        self@ == other@
    }
}

impl<'b> PartialOrd<&'b str> for PascalString {
    /// A string and text are ordered as the dictionary orders their bytes.
    fn partial_cmp(&self, other: &&'b str) -> (r: Option<Ordering>) {
        let order = compare_units(self.as_bytes(), other.as_bytes());
        if order < 0 {
            Some(Ordering::Less)
        } else if order == 0 {
            Some(Ordering::Equal)
        } else {
            Some(Ordering::Greater)
        }
    }
}

impl<'b> PartialOrdSpecImpl<&'b str> for PascalString {
    open spec fn obeys_partial_cmp_spec() -> bool {
        true
    }

    open spec fn partial_cmp_spec(&self, other: &&'b str) -> Option<Ordering> {
        if lex_order(self.spec_bytes(), other.spec_bytes()) < 0 {
            Some(Ordering::Less)
        } else if lex_order(self.spec_bytes(), other.spec_bytes()) == 0 {
            Some(Ordering::Equal)
        } else {
            Some(Ordering::Greater)
        }
    }
}

impl<'a, 'b> PartialEq<&'b str> for PascalStr<'a> {
    /// A string is equal to its text.
    fn eq(&self, other: &&'b str) -> (r: bool) {
        let text = self.as_str();
        proof {
            encode_utf8_decode_utf8(text@);
            encode_utf8_decode_utf8(other@);
        }
        units_eq(text.as_bytes(), other.as_bytes())
    }
}

impl<'a, 'b> PartialEqSpecImpl<&'b str> for PascalStr<'a> {
    open spec fn obeys_eq_spec() -> bool {
        true
    }

    open spec fn eq_spec(&self, other: &&'b str) -> bool {
        self@ == other@
    }
}

impl<'a, 'b> PartialOrd<&'b str> for PascalStr<'a> {
    /// A string and text are ordered as the dictionary orders their bytes.
    fn partial_cmp(&self, other: &&'b str) -> (r: Option<Ordering>) {
        let order = compare_units(self.as_bytes(), other.as_bytes());
        if order < 0 {
            Some(Ordering::Less)
        } else if order == 0 {
            Some(Ordering::Equal)
        } else {
            Some(Ordering::Greater)
        }
    }
}

impl<'a, 'b> PartialOrdSpecImpl<&'b str> for PascalStr<'a> {
    open spec fn obeys_partial_cmp_spec() -> bool {
        true
    }

    open spec fn partial_cmp_spec(&self, other: &&'b str) -> Option<Ordering> {
        if lex_order(self.spec_bytes(), other.spec_bytes()) < 0 {
            Some(Ordering::Less)
        } else if lex_order(self.spec_bytes(), other.spec_bytes()) == 0 {
            Some(Ordering::Equal)
        } else {
            Some(Ordering::Greater)
        }
    }
}

} // verus!
