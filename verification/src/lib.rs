//! Pascal strings: fixed-capacity strings that live inline, as a length byte
//! followed by 255 code units, and never touch the heap.
//!
//! Two encodings share that shape. [`ascii`] stores one 7-bit character per
//! unit; [`utf8`] stores UTF-8 and counts its length in bytes.
use vstd::prelude::*;

pub mod ascii;
pub mod compare;
pub mod lines;
pub mod utf8;

verus! {

/// The number of code units a Pascal string can hold: the largest length its
/// one-byte length field can express.
pub const PASCAL_STRING_BUF_SIZE: usize = 255;

} // verus!
