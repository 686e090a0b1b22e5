//! The owned, heap-allocated nul-terminated byte buffer.

use vstd::prelude::*;
use vstd::slice::slice_subrange;
use crate::scan::find_byte;
use crate::scan::lemma_find_byte_at;
use crate::scan::lemma_find_byte_none;
use crate::scan::nul_terminated;
use crate::scan::payload;
use crate::scan::well_formed;

verus! {

/// An owned C-compatible string: a heap buffer whose final byte is zero.
///
/// Every value of the type ends in exactly one appended terminator; the
/// validated constructor additionally guarantees that no earlier byte is
/// zero (`well_formed`). The unchecked constructor trusts its caller for
/// that second half of the invariant, and nothing can break the first.
#[derive(Debug, Hash)]
pub struct CString {
    inner: Vec<u8>,
}

impl Clone for CString {
    /// A clone holds exactly the same bytes.
    fn clone(&self) -> (r: CString)
        ensures
            r@ == self@,
    {
        proof {
            use_type_invariant(self);
        }
        let v = self.inner.clone();
        proof {
            assert forall|i: int| 0 <= i < self.inner@.len() implies v@[i] == self.inner@[i] by {
                assert(vstd::pervasive::cloned::<u8>(self.inner[i], v[i]));
            }
            assert(v@ =~= self.inner@);
        }
        CString { inner: v }
    }
}

/// An error from validated construction: the provided bytes held a zero
/// before their intended end. It carries the offset of that zero and gives
/// the original bytes back to the caller, so no data is lost on failure.
#[derive(Clone, PartialEq, Eq, Debug)]
pub struct NulError(usize, Vec<u8>);

impl NulError {
    /// The offset of the offending zero byte.
    pub closed spec fn pos(self) -> int {
        self.0 as int
    }

    /// The rejected byte sequence, exactly as it was provided.
    pub closed spec fn bytes(self) -> Seq<u8> {
        self.1@
    }

    /// Returns the position of the zero byte in the rejected input.
    pub fn nul_position(&self) -> (r: usize)
        ensures
            r == self.pos(),
    {
        self.0
    }

    /// Consumes the error, returning the bytes which caused it, unchanged.
    pub fn into_vec(self) -> (r: Vec<u8>)
        ensures
            r@ == self.bytes(),
    {
        self.1
    }
}

impl View for CString {
    type V = Seq<u8>;

    /// The buffer's bytes, terminator included.
    closed spec fn view(&self) -> Seq<u8> {
        self.inner@
    }
}

impl CString {
    #[verifier::type_invariant]
    pub(crate) open spec fn terminated(self) -> bool {
        nul_terminated(self@)
    }

    /// True when the buffer's only zero is its terminator. Validated
    /// construction guarantees it; the unchecked path relies on the caller.
    pub open spec fn well_formed(self) -> bool {
        well_formed(self@)
    }

    /// Creates an owned C string from `bytes`, taking ownership and
    /// appending exactly one terminator — unless `bytes` already holds a
    /// zero: then construction fails, and the error carries the offset of
    /// the first zero together with the bytes themselves.
    pub fn new(bytes: Vec<u8>) -> (r: Result<CString, NulError>)
        ensures
            match r {
                Ok(c) => find_byte(bytes@, 0) is None && c@ == bytes@ + seq![0u8]
                    && c.well_formed(),
                Err(e) => find_byte(bytes@, 0) matches Some(i) && e.pos() == i && e.bytes()
                    == bytes@,
            },
    {
        match memchr::memchr(0, bytes.as_slice()) {
            Some(i) => {
                proof {
                    lemma_find_byte_at(bytes@, 0, i as int);
                }
                Err(NulError(i, bytes))
            },
            None => {
                proof {
                    lemma_find_byte_none(bytes@, 0);
                }
                let c = CString::from_vec_unchecked(bytes);
                proof {
                    assert(payload(c@) =~= bytes@);
                }
                Ok(c)
            },
        }
    }

    /// Appends the terminator without scanning for interior zeros: the
    /// caller answers for their absence, and only the trailing-zero
    /// invariant is enforced here.
    pub fn from_vec_unchecked(v: Vec<u8>) -> (r: CString)
        ensures
            r@ == v@ + seq![0u8],
    {
        let mut v = v;
        v.push(0);
        CString { inner: v }
    }

    /// Returns the underlying bytes without the trailing terminator.
    pub fn into_bytes(self) -> (r: Vec<u8>)
        ensures
            r@ == payload(self@),
    {
        proof {
            use_type_invariant(&self);
        }
        let ghost s = self@;
        let CString { inner } = self;
        let mut inner = inner;
        inner.pop();
        proof {
            assert(inner@ =~= payload(s));
        }
        inner
    }

    /// Returns the underlying bytes, trailing terminator included.
    pub fn into_bytes_with_nul(self) -> (r: Vec<u8>)
        ensures
            r@ == self@,
    {
        let CString { inner } = self;
        inner
    }

    /// The buffer's contents without the trailing terminator.
    pub fn as_bytes(&self) -> (r: &[u8])
        ensures
            r@ == payload(self@),
    {
        proof {
            use_type_invariant(self);
        }
        slice_subrange(self.inner.as_slice(), 0, self.inner.len() - 1)
    }

    /// The buffer's contents, trailing terminator included.
    pub fn as_bytes_with_nul(&self) -> (r: &[u8])
        ensures
            r@ == self@,
    {
        self.inner.as_slice()
    }

    /// (crate) Wraps a buffer that already ends in its terminator.
    pub(crate) fn from_terminated_vec(v: Vec<u8>) -> (r: CString)
        requires
            nul_terminated(v@),
        ensures
            r@ == v@,
    {
        CString { inner: v }
    }
}

impl Default for CString {
    /// The empty C string: nothing but a terminator.
    fn default() -> (r: CString)
        ensures
            r@ == seq![0u8],
    {
        let v: Vec<u8> = vec![0u8];
        proof {
            assert(v@ =~= seq![0u8]);
        }
        CString { inner: v }
    }
}

impl PartialEq for CString {
    /// Equality over the buffer's bytes; for well-formed strings this is
    /// exactly equality of the payloads.
    fn eq(&self, other: &CString) -> (r: bool)
        ensures
            r == (self@ == other@),
    {
        let r = self.inner == other.inner;
        proof {
            if r {
                assert(self@ =~= other@);
            } else {
                if self@ == other@ {
                    assert forall|i: int| 0 <= i < self.inner@.len() implies self.inner@[i]
                        == other.inner@[i] by {}
                    assert(false);
                }
            }
        }
        r
    }
}

impl Eq for CString {

}

impl vstd::std_specs::cmp::PartialEqSpecImpl for CString {
    open spec fn obeys_eq_spec() -> bool {
        true
    }

    open spec fn eq_spec(&self, other: &CString) -> bool {
        self@ == other@
    }
}

} // verus!
