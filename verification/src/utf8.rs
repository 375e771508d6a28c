//! Utf8 encoded pascal strings.
pub mod codec;
pub mod compare;
pub mod laws;
pub mod pascal_str;
pub mod pascal_str_mut;
pub mod pascal_string;

pub use self::pascal_str::{Bytes, Chars, Lines, PascalStr};
pub use self::pascal_str_mut::PascalStrMut;
pub use self::pascal_string::{PascalString, PascalStringAppendError, PascalStringCreateError};
