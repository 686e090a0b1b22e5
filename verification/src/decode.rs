//! UTF-8 decoding of the logical payload, strict and lossy.

use vstd::prelude::*;
use vstd::utf8::decode_utf8;
use vstd::utf8::encode_utf8_decode_utf8;
use vstd::utf8::valid_utf8;
use vstd::string::StringSliceAdditionalSpecFns;
use crate::cstr::CStr;
use crate::cstring::CString;
use crate::scan::payload;

verus! {

/// A failed UTF-8 decode, carrying the byte offset up to which the input was
/// valid.
#[derive(Clone, Copy, PartialEq, Eq, Structural, Debug, Hash)]
pub struct Utf8Error {
    valid_up_to: usize,
}

impl Utf8Error {
    /// The length of the longest prefix that decoded cleanly.
    pub closed spec fn valid_up_to_spec(self) -> int {
        self.valid_up_to as int
    }

    /// Returns the index up to which valid UTF-8 was verified.
    pub fn valid_up_to(&self) -> (r: usize)
        ensures
            r == self.valid_up_to_spec(),
    {
        self.valid_up_to
    }
}

/// True when `off` is the length of the longest prefix of `s` that is valid
/// UTF-8; the byte at `off` starts an invalid or incomplete sequence.
pub open spec fn utf8_error_at(s: Seq<u8>, off: int) -> bool {
    &&& 0 <= off <= s.len()
    &&& valid_utf8(s.take(off))
    &&& forall|j: int| off < j <= s.len() ==> !valid_utf8(s.take(j))
}

/// Relies on core::str::from_utf8 and core::str::Utf8Error::valid_up_to:
/// decoding succeeds exactly on valid UTF-8 and yields the string slice over
/// those same bytes; on failure, `valid_up_to` is the length of the longest
/// prefix that is valid UTF-8.
#[verifier::external_body]
pub(crate) fn from_utf8(b: &[u8]) -> (r: Result<&str, Utf8Error>)
    ensures
        match r {
            Ok(s) => valid_utf8(b@) && s.spec_bytes() == b@,
            Err(e) => !valid_utf8(b@) && utf8_error_at(b@, e.valid_up_to_spec()),
        },
{
    match core::str::from_utf8(b) {
        Ok(s) => Ok(s),
        Err(e) => Err(Utf8Error { valid_up_to: e.valid_up_to() }),
    }
}

/// The characters that lossy decoding yields for a byte sequence: invalid
/// sequences become replacement characters, the rest decodes as usual.
pub uninterp spec fn utf8_lossy(s: Seq<u8>) -> Seq<char>;

/// Relies on String::from_utf8_lossy: invalid sequences are replaced with
/// U+FFFD, and input that is entirely valid UTF-8 decodes to exactly its own
/// characters.
#[verifier::external_body]
pub(crate) fn from_utf8_lossy(b: &[u8]) -> (r: String)
    ensures
        r@ == utf8_lossy(b@),
        valid_utf8(b@) ==> r@ == decode_utf8(b@),
{
    String::from_utf8_lossy(b).into_owned()
}

/// An error from converting an owned buffer into text: it keeps the original
/// buffer unchanged, together with the decode fault.
#[derive(Clone, PartialEq, Eq, Debug)]
pub struct IntoStringError {
    inner: CString,
    error: Utf8Error,
}

impl IntoStringError {
    /// The retained buffer.
    pub closed spec fn cstring(self) -> CString {
        self.inner
    }

    /// The decode fault behind this error.
    pub closed spec fn error(self) -> Utf8Error {
        self.error
    }

    /// Consumes this error, returning the original buffer which generated
    /// it, unchanged.
    pub fn into_cstring(self) -> (r: CString)
        ensures
            r == self.cstring(),
    {
        self.inner
    }

    /// The underlying UTF-8 fault that caused this error.
    pub fn utf8_error(&self) -> (r: Utf8Error)
        ensures
            r == self.error(),
    {
        self.error
    }
}

impl<'a> CStr<'a> {
    /// Decodes the payload as UTF-8: succeeds exactly when the bytes before
    /// the terminator are valid, yielding their characters; otherwise the
    /// error gives the offset of the first invalid sequence.
    pub fn to_str(&self) -> (r: Result<&'a str, Utf8Error>)
        ensures
            match r {
                Ok(s) => valid_utf8(payload(self@)) && s@ == decode_utf8(payload(self@)),
                Err(e) => !valid_utf8(payload(self@)) && utf8_error_at(
                    payload(self@),
                    e.valid_up_to_spec(),
                ),
            },
    {
        let r = from_utf8(self.to_bytes());
        proof {
            broadcast use encode_utf8_decode_utf8;

        }
        r
    }

    /// Decodes the payload as UTF-8, substituting the replacement character
    /// for invalid sequences; fully valid bytes decode to exactly their own
    /// characters.
    pub fn to_string_lossy(&self) -> (r: String)
        ensures
            r@ == utf8_lossy(payload(self@)),
            valid_utf8(payload(self@)) ==> r@ == decode_utf8(payload(self@)),
    {
        from_utf8_lossy(self.to_bytes())
    }
}

impl CString {
    /// Converts the buffer into owned text when its payload is valid UTF-8.
    /// On failure, ownership of the original buffer comes back unchanged
    /// inside the error, with the offset of the first invalid sequence.
    pub fn into_string(self) -> (r: Result<String, IntoStringError>)
        ensures
            match r {
                Ok(s) => valid_utf8(payload(self@)) && s@ == decode_utf8(payload(self@)),
                Err(e) => !valid_utf8(payload(self@)) && e.cstring() == self && utf8_error_at(
                    payload(self@),
                    e.error().valid_up_to_spec(),
                ),
            },
    {
        let decoded: Result<String, Utf8Error> = match from_utf8(self.as_bytes()) {
            Ok(s) => {
                proof {
                    broadcast use encode_utf8_decode_utf8;

                }
                Ok(s.to_owned())
            },
            Err(e) => Err(e),
        };
        match decoded {
            Ok(s) => Ok(s),
            Err(e) => Err(IntoStringError { inner: self, error: e }),
        }
    }
}

} // verus!
