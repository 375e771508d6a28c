//! Indexing of ASCII strings, by one place and by a range of places.
//!
//! The index may be byte-sized, word-sized or signed; the bound is the same
//! for all three. A place is valid below the length of the string. A range
//! is valid where it ends at or below the length, and does not start after
//! its end. A range without a start or without an end is asked for by name,
//! with `range_from`, `range_to` and `range_full`.
use std::ops::{Index, Range};
use vstd::prelude::*;
use crate::ascii::pascal_str::PascalStr;
use crate::ascii::pascal_string::PascalString;

verus! {

impl Index<u8> for PascalString {
    type Output = u8;

    /// The character at `index`.
    fn index(&self, index: u8) -> (unit: &u8)
        ensures
            *unit == self@[index as int],
            *unit < 0x80,
    {
        let units = self.as_bytes();
        &units[index as usize]
    }
}

impl vstd::std_specs::core::IndexSpecImpl<u8> for PascalString {
    open spec fn index_req(&self, index: &u8) -> bool {
        0 <= *index < self@.len()
    }
}

impl Index<Range<u8>> for PascalString {
    type Output = [u8];

    /// The characters from `range.start` up to, and without, `range.end`.
    fn index(&self, range: Range<u8>) -> (units: &[u8])
        ensures
            units@ == self@.subrange(range.start as int, range.end as int),
    {
        let units = self.as_bytes();
        &units[range.start as usize..range.end as usize]
    }
}

impl vstd::std_specs::core::IndexSpecImpl<Range<u8>> for PascalString {
    open spec fn index_req(&self, range: &Range<u8>) -> bool {
        0 <= range.start <= range.end <= self@.len()
    }
}

impl Index<usize> for PascalString {
    type Output = u8;

    /// The character at `index`.
    fn index(&self, index: usize) -> (unit: &u8)
        ensures
            *unit == self@[index as int],
            *unit < 0x80,
    {
        let units = self.as_bytes();
        &units[index as usize]
    }
}

impl vstd::std_specs::core::IndexSpecImpl<usize> for PascalString {
    open spec fn index_req(&self, index: &usize) -> bool {
        0 <= *index < self@.len()
    }
}

impl Index<Range<usize>> for PascalString {
    type Output = [u8];

    /// The characters from `range.start` up to, and without, `range.end`.
    fn index(&self, range: Range<usize>) -> (units: &[u8])
        ensures
            units@ == self@.subrange(range.start as int, range.end as int),
    {
        let units = self.as_bytes();
        &units[range.start as usize..range.end as usize]
    }
}

impl vstd::std_specs::core::IndexSpecImpl<Range<usize>> for PascalString {
    open spec fn index_req(&self, range: &Range<usize>) -> bool {
        0 <= range.start <= range.end <= self@.len()
    }
}

impl Index<i32> for PascalString {
    type Output = u8;

    /// The character at `index`.
    fn index(&self, index: i32) -> (unit: &u8)
        ensures
            *unit == self@[index as int],
            *unit < 0x80,
    {
        let units = self.as_bytes();
        &units[index as usize]
    }
}

impl vstd::std_specs::core::IndexSpecImpl<i32> for PascalString {
    open spec fn index_req(&self, index: &i32) -> bool {
        0 <= *index < self@.len()
    }
}

impl Index<Range<i32>> for PascalString {
    type Output = [u8];

    /// The characters from `range.start` up to, and without, `range.end`.
    fn index(&self, range: Range<i32>) -> (units: &[u8])
        ensures
            units@ == self@.subrange(range.start as int, range.end as int),
    {
        let units = self.as_bytes();
        &units[range.start as usize..range.end as usize]
    }
}

impl vstd::std_specs::core::IndexSpecImpl<Range<i32>> for PascalString {
    open spec fn index_req(&self, range: &Range<i32>) -> bool {
        0 <= range.start <= range.end <= self@.len()
    }
}

impl<'a> Index<u8> for PascalStr<'a> {
    type Output = u8;

    /// The character at `index`.
    fn index(&self, index: u8) -> (unit: &u8)
        ensures
            *unit == self@[index as int],
            *unit < 0x80,
    {
        let units = self.as_bytes();
        &units[index as usize]
    }
}

impl<'a> vstd::std_specs::core::IndexSpecImpl<u8> for PascalStr<'a> {
    open spec fn index_req(&self, index: &u8) -> bool {
        0 <= *index < self@.len()
    }
}

impl<'a> Index<Range<u8>> for PascalStr<'a> {
    type Output = [u8];

    /// The characters from `range.start` up to, and without, `range.end`.
    fn index(&self, range: Range<u8>) -> (units: &[u8])
        ensures
            units@ == self@.subrange(range.start as int, range.end as int),
    {
        let units = self.as_bytes();
        &units[range.start as usize..range.end as usize]
    }
}

impl<'a> vstd::std_specs::core::IndexSpecImpl<Range<u8>> for PascalStr<'a> {
    open spec fn index_req(&self, range: &Range<u8>) -> bool {
        0 <= range.start <= range.end <= self@.len()
    }
}

impl<'a> Index<usize> for PascalStr<'a> {
    type Output = u8;

    /// The character at `index`.
    fn index(&self, index: usize) -> (unit: &u8)
        ensures
            *unit == self@[index as int],
            *unit < 0x80,
    {
        let units = self.as_bytes();
        &units[index as usize]
    }
}

impl<'a> vstd::std_specs::core::IndexSpecImpl<usize> for PascalStr<'a> {
    open spec fn index_req(&self, index: &usize) -> bool {
        0 <= *index < self@.len()
    }
}

impl<'a> Index<Range<usize>> for PascalStr<'a> {
    type Output = [u8];

    /// The characters from `range.start` up to, and without, `range.end`.
    fn index(&self, range: Range<usize>) -> (units: &[u8])
        ensures
            units@ == self@.subrange(range.start as int, range.end as int),
    {
        let units = self.as_bytes();
        &units[range.start as usize..range.end as usize]
    }
}

impl<'a> vstd::std_specs::core::IndexSpecImpl<Range<usize>> for PascalStr<'a> {
    open spec fn index_req(&self, range: &Range<usize>) -> bool {
        0 <= range.start <= range.end <= self@.len()
    }
}

impl<'a> Index<i32> for PascalStr<'a> {
    type Output = u8;

    /// The character at `index`.
    fn index(&self, index: i32) -> (unit: &u8)
        ensures
            *unit == self@[index as int],
            *unit < 0x80,
    {
        let units = self.as_bytes();
        &units[index as usize]
    }
}

impl<'a> vstd::std_specs::core::IndexSpecImpl<i32> for PascalStr<'a> {
    open spec fn index_req(&self, index: &i32) -> bool {
        0 <= *index < self@.len()
    }
}

impl<'a> Index<Range<i32>> for PascalStr<'a> {
    type Output = [u8];

    /// The characters from `range.start` up to, and without, `range.end`.
    fn index(&self, range: Range<i32>) -> (units: &[u8])
        ensures
            units@ == self@.subrange(range.start as int, range.end as int),
    {
        let units = self.as_bytes();
        &units[range.start as usize..range.end as usize]
    }
}

impl<'a> vstd::std_specs::core::IndexSpecImpl<Range<i32>> for PascalStr<'a> {
    open spec fn index_req(&self, range: &Range<i32>) -> bool {
        0 <= range.start <= range.end <= self@.len()
    }
}

impl PascalString {
    /// The characters from `start` on: the range that has no end.
    ///
    /// `start` must be at most `self.len()`.
    pub fn range_from(&self, start: usize) -> (units: &[u8])
        requires
            start <= self@.len(),
        ensures
            units@ == self@.subrange(start as int, self@.len() as int),
    {
        let all = self.as_bytes();
        &all[start..all.len()]
    }

    /// The characters before `end`: the range that has no start.
    ///
    /// `end` must be at most `self.len()`.
    pub fn range_to(&self, end: usize) -> (units: &[u8])
        requires
            end <= self@.len(),
        ensures
            units@ == self@.subrange(0, end as int),
    {
        let all = self.as_bytes();
        &all[0..end]
    }

    /// All the characters: the range that has neither start nor end.
    pub fn range_full(&self) -> (units: &[u8])
        ensures
            units@ == self@,
    {
        self.as_bytes()
    }
}

impl<'a> PascalStr<'a> {
    /// The characters from `start` on: the range that has no end.
    ///
    /// `start` must be at most `self.len()`.
    pub fn range_from(&self, start: usize) -> (units: &[u8])
        requires
            start <= self@.len(),
        ensures
            units@ == self@.subrange(start as int, self@.len() as int),
    {
        let all = self.as_bytes();
        &all[start..all.len()]
    }

    /// The characters before `end`: the range that has no start.
    ///
    /// `end` must be at most `self.len()`.
    pub fn range_to(&self, end: usize) -> (units: &[u8])
        requires
            end <= self@.len(),
        ensures
            units@ == self@.subrange(0, end as int),
    {
        let all = self.as_bytes();
        &all[0..end]
    }

    /// All the characters: the range that has neither start nor end.
    pub fn range_full(&self) -> (units: &[u8])
        ensures
            units@ == self@,
    {
        self.as_bytes()
    }
}

} // verus!
