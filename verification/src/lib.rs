//! A safe representation of C-style strings: byte buffers terminated by a
//! single zero byte.
//!
//! The crate offers an owned, heap-allocated buffer ([`CString`]), a
//! borrowed read-only view over existing nul-terminated bytes ([`CStr`]),
//! an ownership token that models handing a buffer to foreign code and
//! reclaiming it ([`RawCString`]), and the validation, decoding and
//! diagnostic-escape logic that upholds the terminator invariant: the
//! buffer's final byte is zero, and for validated construction no other
//! byte is.

pub mod cstr;
pub mod cstring;
pub mod decode;
pub mod escape;
pub mod fmt;
pub mod raw;
pub mod scan;

pub use cstr::CStr;
pub use cstr::FromBytesWithNulError;
pub use cstring::CString;
pub use cstring::NulError;
pub use decode::IntoStringError;
pub use decode::Utf8Error;
pub use escape::EscapeDefault;
pub use escape::escape_default;
pub use raw::RawCString;
