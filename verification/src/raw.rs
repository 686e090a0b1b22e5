//! The foreign-ownership boundary: handing a buffer out and taking it back.
//!
//! A buffer crosses the boundary as an opaque token. Exactly two transitions
//! exist: [`CString::into_raw`] moves an owned buffer out, and
//! [`CString::from_raw`] reclaims it, recomputing the length by scanning for
//! the terminator as a C caller would. A token that is never reclaimed
//! models a buffer leaked for good.

use vstd::prelude::*;
use crate::cstring::CString;
use crate::scan::find_byte;
use crate::scan::lemma_find_byte_at;
use crate::scan::lemma_well_formed_find;
use crate::scan::nul_terminated;
use crate::scan::well_formed;

verus! {

/// The allocation of a `CString` while a foreign caller holds it: an opaque
/// ownership token standing for the exported raw address.
pub struct RawCString {
    bytes: Vec<u8>,
}

impl View for RawCString {
    type V = Seq<u8>;

    /// The exported buffer's bytes, terminator included.
    closed spec fn view(&self) -> Seq<u8> {
        self.bytes@
    }
}

impl RawCString {
    #[verifier::type_invariant]
    spec fn terminated(self) -> bool {
        nul_terminated(self@)
    }
}

impl CString {
    /// Transfers ownership of the buffer to a foreign caller. The token must
    /// eventually come back through `from_raw`; a token left unreclaimed is
    /// a permanent leak.
    pub fn into_raw(self) -> (r: RawCString)
        ensures
            r@ == self@,
    {
        proof {
            use_type_invariant(&self);
        }
        RawCString { bytes: self.into_bytes_with_nul() }
    }

    /// Retakes ownership of a buffer previously exported with `into_raw`,
    /// recomputing its length by a forward scan up to and including the
    /// first zero byte. A buffer whose only zero was its terminator comes
    /// back byte-for-byte.
    pub fn from_raw(raw: RawCString) -> (r: CString)
        ensures
            find_byte(raw@, 0) matches Some(i) && r@ == raw@.subrange(0, i + 1),
            well_formed(raw@) ==> r@ == raw@,
    {
        proof {
            use_type_invariant(&raw);
        }
        let ghost s = raw@;
        let RawCString { bytes } = raw;
        let mut bytes = bytes;
        let total = bytes.len();
        let n = scan_nul(bytes.as_slice());
        proof {
            assert(n < total);
        }
        bytes.truncate(n + 1);
        proof {
            lemma_find_byte_at(s, 0, n as int);
            if well_formed(s) {
                lemma_well_formed_find(s);
                assert(bytes@ =~= s);
            }
        }
        CString::from_terminated_vec(bytes)
    }
}

/// Linear forward scan for the terminator: the count of bytes before the
/// first zero.
fn scan_nul(b: &[u8]) -> (r: usize)
    requires
        exists|i: int| 0 <= i < b@.len() && b@[i] == 0,
    ensures
        r < b@.len(),
        b@[r as int] == 0,
        forall|j: int| 0 <= j < r ==> b@[j] != 0,
{
    let ghost k = choose|i: int| 0 <= i < b@.len() && b@[i] == 0;
    let mut n: usize = 0;
    while b[n] != 0
        invariant
            0 <= n <= k < b@.len(),
            b@[k] == 0,
            forall|j: int| 0 <= j < n ==> b@[j] != 0,
        decreases b@.len() - n,
    {
        proof {
            assert(n != k);
        }
        n = n + 1;
    }
    n
}

} // verus!
