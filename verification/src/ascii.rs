//! Ascii encoded pascal strings.
pub mod capability;
pub mod codec;
pub mod compare;
pub mod index;
pub mod laws;
pub mod pascal_str;
pub mod pascal_str_mut;
pub mod pascal_string;

pub use self::capability::AsciiText;
pub use self::codec::AsciiError;
pub use self::pascal_str::{Chars, InteriorNullError, Lines, PascalStr};
pub use self::pascal_str_mut::PascalStrMut;
pub use self::pascal_string::{
    CharsMut, IntoChars, PascalString, PascalStringAppendError, PascalStringCreateError,
};
