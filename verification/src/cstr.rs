//! The borrowed, read-only view over existing nul-terminated bytes.

use core::cmp::Ordering;
use vstd::prelude::*;
use vstd::slice::slice_subrange;
use vstd::slice::slice_to_vec;
use vstd::string::StringExecFns;
use crate::cstring::CString;
use crate::fmt::ascii_chars;
use crate::fmt::ascii_string;
use crate::fmt::decimal_bytes;
use crate::fmt::lemma_decimal_bytes_ascii;
use crate::fmt::push_decimal;
use crate::scan::find_byte;
use crate::scan::lemma_find_byte_at;
use crate::scan::lemma_find_byte_none;
use crate::scan::nul_terminated;
use crate::scan::payload;
use crate::scan::well_formed;

verus! {

/// A borrowed C string: a non-owning, read-only alias over bytes that end in
/// a trailing zero. It holds no allocation and never frees anything; the
/// caller answers for the backing storage outliving the view.
#[derive(Debug, Hash)]
pub struct CStr<'a> {
    inner: &'a [u8],
}

/// An error from borrowing a view over raw bytes: either a zero byte stood
/// before the end (at the offset carried here), or no zero byte was found at
/// all.
#[derive(Clone, PartialEq, Eq, Structural, Debug)]
pub struct FromBytesWithNulError {
    kind: FromBytesWithNulErrorKind,
}

#[derive(Clone, PartialEq, Eq, Structural, Debug)]
enum FromBytesWithNulErrorKind {
    InteriorNul(usize),
    NotNulTerminated,
}

impl FromBytesWithNulError {
    /// True for the interior-zero defect; false for a missing terminator.
    pub closed spec fn is_interior_nul(self) -> bool {
        match self.kind {
            FromBytesWithNulErrorKind::InteriorNul(_) => true,
            FromBytesWithNulErrorKind::NotNulTerminated => false,
        }
    }

    /// The offset of the premature zero, for the interior-zero defect.
    pub closed spec fn nul_pos(self) -> int {
        match self.kind {
            FromBytesWithNulErrorKind::InteriorNul(p) => p as int,
            FromBytesWithNulErrorKind::NotNulTerminated => 0,
        }
    }

    /// Builds the error for a zero byte found at offset `pos`, before the
    /// end of the provided bytes.
    pub fn interior_nul(pos: usize) -> (r: FromBytesWithNulError)
        ensures
            r.is_interior_nul(),
            r.nul_pos() == pos,
    {
        FromBytesWithNulError { kind: FromBytesWithNulErrorKind::InteriorNul(pos) }
    }

    /// Builds the error for bytes that hold no zero at all.
    pub fn not_nul_terminated() -> (r: FromBytesWithNulError)
        ensures
            !r.is_interior_nul(),
    {
        FromBytesWithNulError { kind: FromBytesWithNulErrorKind::NotNulTerminated }
    }

    /// The wording that describes this error: the defect, and for an
    /// interior zero also its offset.
    pub open spec fn message_chars(self) -> Seq<char> {
        if self.is_interior_nul() {
            "data provided contains an interior nul byte at byte pos "@ + ascii_chars(
                decimal_bytes(self.nul_pos()),
            )
        } else {
            "data provided is not nul terminated"@
        }
    }

    /// Describes the defect in words.
    pub fn message(&self) -> (r: String)
        ensures
            r@ == self.message_chars(),
    {
        match self.kind {
            FromBytesWithNulErrorKind::InteriorNul(pos) => {
                let mut r = String::from_str(
                    "data provided contains an interior nul byte at byte pos ",
                );
                let mut digits: Vec<u8> = Vec::new();
                push_decimal(&mut digits, pos);
                proof {
                    lemma_decimal_bytes_ascii(pos as int);
                }
                let d = ascii_string(digits);
                r.append(d.as_str());
                r
            },
            FromBytesWithNulErrorKind::NotNulTerminated => {
                String::from_str("data provided is not nul terminated")
            },
        }
    }
}

impl<'a> View for CStr<'a> {
    type V = Seq<u8>;

    /// The viewed bytes, terminator included.
    closed spec fn view(&self) -> Seq<u8> {
        self.inner@
    }
}

impl<'a> Clone for CStr<'a> {
    /// A copy of the view: the same bytes, still borrowed.
    fn clone(&self) -> (r: CStr<'a>)
        ensures
            r@ == self@,
    {
        proof {
            use_type_invariant(self);
        }
        CStr { inner: self.inner }
    }
}

impl<'a> Copy for CStr<'a> {

}

impl<'a> CStr<'a> {
    #[verifier::type_invariant]
    pub(crate) open spec fn terminated(self) -> bool {
        nul_terminated(self@)
    }

    /// True when the viewed bytes' only zero is their last byte. The
    /// validating constructor guarantees it; the unchecked one relies on the
    /// caller.
    pub open spec fn well_formed(self) -> bool {
        well_formed(self@)
    }

    /// Creates a view after checking the invariant: succeeds exactly when
    /// the last of `bytes` is zero and no earlier byte is. Otherwise the
    /// error names the actual defect — a premature zero together with its
    /// offset, or the absence of any zero.
    pub fn from_bytes_with_nul(bytes: &'a [u8]) -> (r: Result<
        CStr<'a>,
        FromBytesWithNulError,
    >)
        ensures
            match r {
                Ok(c) => well_formed(bytes@) && c@ == bytes@,
                Err(e) => !well_formed(bytes@) && match find_byte(bytes@, 0) {
                    Some(i) => e.is_interior_nul() && e.nul_pos() == i && i < bytes@.len() - 1,
                    None => !e.is_interior_nul(),
                },
            },
    {
        let len = bytes.len();
        let nul_pos = memchr::memchr(0, bytes);
        match nul_pos {
            Some(nul_pos) => {
                proof {
                    lemma_find_byte_at(bytes@, 0, nul_pos as int);
                    assert(nul_pos < len);
                }
                if nul_pos + 1 != len {
                    proof {
                        assert(!well_formed(bytes@));
                    }
                    Err(FromBytesWithNulError::interior_nul(nul_pos))
                } else {
                    Ok(CStr { inner: bytes })
                }
            },
            None => {
                proof {
                    lemma_find_byte_none(bytes@, 0);
                }
                Err(FromBytesWithNulError::not_nul_terminated())
            },
        }
    }

    /// Wraps bytes as a view without scanning them. The caller answers for
    /// the single-trailing-zero invariant; only the terminator itself is
    /// demanded here, as the type's invariant.
    pub fn from_bytes_with_nul_unchecked(bytes: &'a [u8]) -> (r: CStr<'a>)
        requires
            nul_terminated(bytes@),
        ensures
            r@ == bytes@,
    {
        CStr { inner: bytes }
    }

    /// The viewed bytes without the trailing terminator.
    pub fn to_bytes(&self) -> (r: &'a [u8])
        ensures
            r@ == payload(self@),
    {
        proof {
            use_type_invariant(self);
        }
        let bytes = self.inner;
        slice_subrange(bytes, 0, bytes.len() - 1)
    }

    /// The viewed bytes, trailing terminator included.
    pub fn to_bytes_with_nul(&self) -> (r: &'a [u8])
        ensures
            r@ == self@,
    {
        self.inner
    }

    /// Duplicates the viewed bytes, terminator included, into a new owned
    /// buffer.
    pub fn to_owned(&self) -> (r: CString)
        ensures
            r@ == self@,
    {
        proof {
            use_type_invariant(self);
        }
        CString::from_terminated_vec(slice_to_vec(self.inner))
    }
}

impl CString {
    /// A borrowed view over this buffer's bytes, terminator included.
    pub fn as_c_str(&self) -> (r: CStr<'_>)
        ensures
            r@ == self@,
    {
        proof {
            use_type_invariant(self);
        }
        CStr::from_bytes_with_nul_unchecked(self.as_bytes_with_nul())
    }
}

/// Byte-for-byte equality of two slices.
fn bytes_eq(a: &[u8], b: &[u8]) -> (r: bool)
    ensures
        r == (a@ == b@),
{
    if a.len() != b.len() {
        return false;
    }
    let mut i: usize = 0;
    while i < a.len()
        invariant
            a@.len() == b@.len(),
            0 <= i <= a@.len(),
            forall|j: int| 0 <= j < i ==> a@[j] == b@[j],
        decreases a@.len() - i,
    {
        if a[i] != b[i] {
            return false;
        }
        i = i + 1;
    }
    proof {
        assert(a@ =~= b@);
    }
    true
}

impl<'a> PartialEq for CStr<'a> {
    /// Equality over the bytes excluding the terminator, so a view and an
    /// owned buffer of the same logical content compare alike.
    fn eq(&self, other: &CStr<'a>) -> (r: bool)
        ensures
            r == (payload(self@) == payload(other@)),
    {
        proof {
            use_type_invariant(self);
            use_type_invariant(other);
        }
        bytes_eq(self.to_bytes(), other.to_bytes())
    }
}

impl<'a> vstd::std_specs::cmp::PartialEqSpecImpl for CStr<'a> {
    open spec fn obeys_eq_spec() -> bool {
        true
    }

    open spec fn eq_spec(&self, other: &CStr<'a>) -> bool {
        payload(self@) == payload(other@)
    }
}

/// Lexicographic order of two byte sequences.
pub open spec fn lex_cmp(a: Seq<u8>, b: Seq<u8>) -> Ordering
    decreases a.len(),
{
    if a.len() == 0 && b.len() == 0 {
        Ordering::Equal
    } else if a.len() == 0 {
        Ordering::Less
    } else if b.len() == 0 {
        Ordering::Greater
    } else if a[0] < b[0] {
        Ordering::Less
    } else if a[0] > b[0] {
        Ordering::Greater
    } else {
        lex_cmp(a.drop_first(), b.drop_first())
    }
}

/// Dropping an equal prefix from both sequences leaves their lexicographic
/// order unchanged.
proof fn lemma_lex_cmp_skip(a: Seq<u8>, b: Seq<u8>, i: int)
    requires
        0 <= i <= a.len(),
        i <= b.len(),
        forall|j: int| 0 <= j < i ==> a[j] == b[j],
    ensures
        lex_cmp(a, b) == lex_cmp(a.skip(i), b.skip(i)),
    decreases i,
{
    if i > 0 {
        lemma_lex_cmp_skip(a.drop_first(), b.drop_first(), i - 1);
        assert(a.drop_first().skip(i - 1) =~= a.skip(i));
        assert(b.drop_first().skip(i - 1) =~= b.skip(i));
    } else {
        assert(a.skip(0) =~= a);
        assert(b.skip(0) =~= b);
    }
}

/// Lexicographic comparison of two slices.
fn lex_compare(a: &[u8], b: &[u8]) -> (r: Ordering)
    ensures
        r == lex_cmp(a@, b@),
{
    let a_len = a.len();
    let b_len = b.len();
    let mut i: usize = 0;
    while i < a_len && i < b_len
        invariant
            a_len == a@.len(),
            b_len == b@.len(),
            0 <= i <= a_len,
            i <= b_len,
            forall|j: int| 0 <= j < i ==> a@[j] == b@[j],
        decreases a@.len() - i,
    {
        if a[i] < b[i] {
            proof {
                lemma_lex_cmp_skip(a@, b@, i as int);
            }
            return Ordering::Less;
        }
        if a[i] > b[i] {
            proof {
                lemma_lex_cmp_skip(a@, b@, i as int);
            }
            return Ordering::Greater;
        }
        i = i + 1;
    }
    proof {
        lemma_lex_cmp_skip(a@, b@, i as int);
    }
    if i < b_len {
        Ordering::Less
    } else if i < a_len {
        Ordering::Greater
    } else {
        Ordering::Equal
    }
}

impl<'a> PartialOrd for CStr<'a> {
    /// Lexicographic order over the bytes excluding the terminator.
    fn partial_cmp(&self, other: &CStr<'a>) -> (r: Option<Ordering>)
        ensures
            r == Some(lex_cmp(payload(self@), payload(other@))),
    {
        proof {
            use_type_invariant(self);
            use_type_invariant(other);
        }
        Some(lex_compare(self.to_bytes(), other.to_bytes()))
    }
}

impl<'a> vstd::std_specs::cmp::PartialOrdSpecImpl for CStr<'a> {
    open spec fn obeys_partial_cmp_spec() -> bool {
        true
    }

    open spec fn partial_cmp_spec(&self, other: &CStr<'a>) -> Option<Ordering> {
        Some(lex_cmp(payload(self@), payload(other@)))
    }
}

} // verus!
