//! The shape of nul-terminated byte buffers, and the search for the
//! terminator.

use vstd::prelude::*;

verus! {

/// True when `s` has the basic C-string shape: at least one byte, and the
/// final byte is zero.
pub open spec fn nul_terminated(s: Seq<u8>) -> bool {
    s.len() >= 1 && s[s.len() - 1] == 0
}

/// True when no byte before the final one is zero.
pub open spec fn no_interior_nul(s: Seq<u8>) -> bool {
    forall|i: int| 0 <= i < s.len() - 1 ==> s[i] != 0
}

/// A proper C-string buffer: its only zero byte is its last.
pub open spec fn well_formed(s: Seq<u8>) -> bool {
    nul_terminated(s) && no_interior_nul(s)
}

/// The logical payload of a buffer: every byte before the final terminator.
pub open spec fn payload(s: Seq<u8>) -> Seq<u8> {
    s.take(s.len() - 1)
}

/// Index of the first occurrence of `x` in `s`, or `None` when `x` is absent.
pub open spec fn find_byte(s: Seq<u8>, x: u8) -> Option<int>
    decreases s.len(),
{
    if s.len() == 0 {
        None
    } else if s[0] == x {
        Some(0)
    } else {
        match find_byte(s.drop_first(), x) {
            Some(i) => Some(i + 1),
            None => None,
        }
    }
}

/// `find_byte` points at the first occurrence of `x`, and is `None` exactly
/// when `x` does not occur.
pub proof fn lemma_find_byte(s: Seq<u8>, x: u8)
    ensures
        match find_byte(s, x) {
            Some(i) => 0 <= i < s.len() && s[i] == x && forall|j: int| 0 <= j < i ==> s[j] != x,
            None => forall|j: int| 0 <= j < s.len() ==> s[j] != x,
        },
    decreases s.len(),
{
    if s.len() > 0 && s[0] != x {
        lemma_find_byte(s.drop_first(), x);
        assert(forall|j: int| 1 <= j < s.len() ==> s[j] == s.drop_first()[j - 1]);
    }
}

/// An index that holds `x`, with nothing but other bytes before it, is the
/// index `find_byte` returns.
pub proof fn lemma_find_byte_at(s: Seq<u8>, x: u8, i: int)
    requires
        0 <= i < s.len(),
        s[i] == x,
        forall|j: int| 0 <= j < i ==> s[j] != x,
    ensures
        find_byte(s, x) == Some(i),
{
    lemma_find_byte(s, x);
    match find_byte(s, x) {
        Some(k) => {
            if k < i {
                assert(s[k] != x);
            } else if k > i {
                assert(s[i] != x);
            }
        },
        None => {
            assert(s[i] != x);
        },
    }
}

/// When no byte of `s` is `x`, `find_byte` is `None`.
pub proof fn lemma_find_byte_none(s: Seq<u8>, x: u8)
    requires
        forall|j: int| 0 <= j < s.len() ==> s[j] != x,
    ensures
        find_byte(s, x) is None,
{
    lemma_find_byte(s, x);
    match find_byte(s, x) {
        Some(k) => {
            assert(s[k] != x);
        },
        None => {},
    }
}

/// In a well-formed buffer the first zero is the terminator itself.
pub proof fn lemma_well_formed_find(s: Seq<u8>)
    requires
        well_formed(s),
    ensures
        find_byte(s, 0) == Some(s.len() - 1),
{
    lemma_find_byte_at(s, 0, s.len() - 1);
}

/// Two nul-terminated buffers are equal exactly when their payloads are:
/// comparing C strings without their terminators loses nothing.
pub proof fn lemma_payload_determines_buffer(a: Seq<u8>, b: Seq<u8>)
    requires
        nul_terminated(a),
        nul_terminated(b),
    ensures
        payload(a) == payload(b) <==> a == b,
{
    if payload(a) == payload(b) {
        assert(payload(a).len() == a.len() - 1);
        assert(payload(b).len() == b.len() - 1);
        assert forall|i: int| 0 <= i < a.len() implies a[i] == b[i] by {
            if i < a.len() - 1 {
                assert(a[i] == payload(a)[i]);
                assert(b[i] == payload(b)[i]);
            }
        }
        assert(a =~= b);
    }
}

/// Relies on memchr::memchr: the index of the first occurrence of `needle` in
/// `haystack`, or `None` when the byte does not occur.
pub assume_specification [ memchr::memchr ](needle: u8, haystack: &[u8]) -> (r: Option<usize>)
    ensures
        match r {
            Some(i) => i < haystack@.len() && haystack@[i as int] == needle && forall|j: int|
                0 <= j < i ==> haystack@[j] != needle,
            None => forall|j: int| 0 <= j < haystack@.len() ==> haystack@[j] != needle,
        },
;

} // verus!
