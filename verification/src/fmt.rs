//! The quoted, escaped diagnostic rendering of a C string.

use vstd::prelude::*;
use vstd::pervasive::unreached;
use vstd::string::StringSliceAdditionalSpecFns;
use vstd::utf8::decode_utf8;
use vstd::utf8::encode_utf8;
use vstd::utf8::encode_utf8_decode_utf8;
use vstd::utf8::encode_utf8_valid_utf8;
use vstd::utf8::is_ascii_chars;
use vstd::utf8::is_ascii_chars_encode_utf8;
use vstd::utf8::valid_utf8;
use crate::cstr::CStr;
use crate::cstring::CString;
use crate::decode::from_utf8;
use crate::escape::escape_default;
use crate::escape::escape_seq;
use crate::escape::lemma_escape_seq_ascii;
use crate::scan::payload;

verus! {

/// Each byte's escape rendering, concatenated.
pub open spec fn escaped_bytes(s: Seq<u8>) -> Seq<u8>
    decreases s.len(),
{
    if s.len() == 0 {
        Seq::empty()
    } else {
        escape_seq(s[0]) + escaped_bytes(s.drop_first())
    }
}

/// The characters that a sequence of ASCII bytes stands for, one per byte.
pub open spec fn ascii_chars(s: Seq<u8>) -> Seq<char> {
    Seq::new(s.len(), |i: int| s[i] as char)
}

/// The rendering of a payload for diagnostics: every byte escaped, the
/// whole wrapped in double quotes.
pub open spec fn debug_chars(s: Seq<u8>) -> Seq<char> {
    ascii_chars(seq![0x22u8] + escaped_bytes(s) + seq![0x22u8])
}

/// Escaping distributes over concatenation.
proof fn lemma_escaped_bytes_concat(a: Seq<u8>, b: Seq<u8>)
    ensures
        escaped_bytes(a + b) == escaped_bytes(a) + escaped_bytes(b),
    decreases a.len(),
{
    if a.len() == 0 {
        assert(a + b =~= b);
        assert(escaped_bytes(a) + escaped_bytes(b) =~= escaped_bytes(b));
    } else {
        assert((a + b).drop_first() =~= a.drop_first() + b);
        lemma_escaped_bytes_concat(a.drop_first(), b);
        assert((a + b)[0] == a[0]);
        assert(escape_seq(a[0]) + (escaped_bytes(a.drop_first()) + escaped_bytes(b)) =~= (
        escape_seq(a[0]) + escaped_bytes(a.drop_first())) + escaped_bytes(b));
    }
}

/// Escaping one more byte appends that byte's escape.
proof fn lemma_escaped_bytes_snoc(s: Seq<u8>, i: int)
    requires
        0 <= i < s.len(),
    ensures
        escaped_bytes(s.take(i + 1)) == escaped_bytes(s.take(i)) + escape_seq(s[i]),
{
    assert(s.take(i + 1) =~= s.take(i) + seq![s[i]]);
    lemma_escaped_bytes_concat(s.take(i), seq![s[i]]);
    assert(seq![s[i]].drop_first() =~= Seq::<u8>::empty());
    assert(escaped_bytes(Seq::<u8>::empty()) =~= Seq::<u8>::empty());
    assert(escaped_bytes(seq![s[i]]) =~= escape_seq(s[i]));
}

/// ASCII bytes are valid UTF-8 and decode to one character per byte.
proof fn lemma_ascii_bytes_utf8(v: Seq<u8>)
    requires
        forall|i: int| 0 <= i < v.len() ==> v[i] < 0x80,
    ensures
        valid_utf8(v),
        decode_utf8(v) == ascii_chars(v),
{
    let cs = ascii_chars(v);
    assert forall|i: int| 0 <= i < cs.len() implies '\0' <= #[trigger] cs[i] <= '\u{7f}' by {
        assert(cs[i] == v[i] as char);
    }
    assert(is_ascii_chars(cs));
    is_ascii_chars_encode_utf8(cs);
    assert forall|i: int| 0 <= i < v.len() implies encode_utf8(cs)[i] == v[i] by {
        assert(cs[i] as u8 == encode_utf8(cs)[i]);
    }
    assert(encode_utf8(cs) =~= v);
    encode_utf8_valid_utf8(cs);
    encode_utf8_decode_utf8(cs);
}

/// The decimal digits of a number, most significant first.
pub open spec fn decimal_bytes(n: int) -> Seq<u8>
    decreases n,
{
    if n < 0 {
        Seq::empty()
    } else if n < 10 {
        seq![(0x30 + n) as u8]
    } else {
        decimal_bytes(n / 10) + seq![(0x30 + n % 10) as u8]
    }
}

/// Decimal digits are ASCII digit bytes.
pub proof fn lemma_decimal_bytes_ascii(n: int)
    ensures
        forall|i: int|
            0 <= i < decimal_bytes(n).len() ==> 0x30 <= #[trigger] decimal_bytes(n)[i] <= 0x39,
    decreases n,
{
    if n >= 10 {
        lemma_decimal_bytes_ascii(n / 10);
        let d = decimal_bytes(n);
        let p = decimal_bytes(n / 10);
        assert forall|i: int| 0 <= i < d.len() implies 0x30 <= #[trigger] d[i] <= 0x39 by {
            if i < p.len() {
                assert(d[i] == p[i]);
            } else {
                assert(d[i] == (0x30 + n % 10) as u8);
            }
        }
    }
}

/// Appends the decimal rendering of `n`.
pub(crate) fn push_decimal(out: &mut Vec<u8>, n: usize)
    ensures
        final(out)@ == old(out)@ + decimal_bytes(n as int),
    decreases n,
{
    if n >= 10 {
        push_decimal(out, n / 10);
    }
    let d: u8 = 0x30 + (n % 10) as u8;
    out.push(d);
    proof {
        if n >= 10 {
            assert(out@ =~= old(out)@ + decimal_bytes(n as int));
        } else {
            assert(out@ =~= old(out)@ + decimal_bytes(n as int));
        }
    }
}

/// Builds the string whose characters are the given ASCII bytes, one
/// character per byte.
pub(crate) fn ascii_string(v: Vec<u8>) -> (r: String)
    requires
        forall|i: int| 0 <= i < v@.len() ==> v@[i] < 0x80,
    ensures
        r@ == ascii_chars(v@),
{
    match from_utf8(v.as_slice()) {
        Ok(s) => {
            proof {
                lemma_ascii_bytes_utf8(v@);
                broadcast use encode_utf8_decode_utf8;

                assert(s@ == decode_utf8(v@));
            }
            s.to_owned()
        },
        Err(_) => {
            proof {
                lemma_ascii_bytes_utf8(v@);
                assert(false);
            }
            unreached()
        },
    }
}

impl<'a> CStr<'a> {
    /// Renders the payload for diagnostics: the escaped form of every byte,
    /// wrapped in double quotes.
    pub fn to_debug_string(&self) -> (r: String)
        ensures
            r@ == debug_chars(payload(self@)),
    {
        let bytes = self.to_bytes();
        let mut out: Vec<u8> = Vec::new();
        out.push(0x22);
        proof {
            assert(bytes@.take(0) =~= Seq::<u8>::empty());
            assert(out@ =~= seq![0x22u8] + escaped_bytes(bytes@.take(0)));
        }
        let n = bytes.len();
        let mut i: usize = 0;
        while i < n
            invariant
                n == bytes@.len(),
                0 <= i <= n,
                out@ == seq![0x22u8] + escaped_bytes(bytes@.take(i as int)),
                forall|j: int| 0 <= j < out@.len() ==> out@[j] < 0x80,
            decreases n - i,
        {
            let b = bytes[i];
            let ghost base = out@;
            let mut esc = escape_default(b);
            loop
                invariant
                    out@ + esc.remaining() == base + escape_seq(b),
                    out@.len() >= base.len(),
                    forall|j: int| 0 <= j < base.len() ==> base[j] < 0x80,
                    forall|j: int| 0 <= j < out@.len() ==> out@[j] < 0x80,
                ensures
                    out@ == base + escape_seq(b),
                    forall|j: int| 0 <= j < out@.len() ==> out@[j] < 0x80,
                decreases esc.remaining().len(),
            {
                let ghost rem = esc.remaining();
                match esc.next() {
                    Some(x) => {
                        proof {
                            lemma_escape_seq_ascii(b);
                            assert(rem.len() > 0);
                            assert((out@ + rem).len() == out@.len() + rem.len());
                            assert((base + escape_seq(b)).len() == base.len() + escape_seq(
                                b,
                            ).len());
                            let k = out@.len() - base.len();
                            assert(0 <= k < escape_seq(b).len());
                            assert(x == rem[0]);
                            assert(rem[0] == (out@ + rem)[out@.len() as int]);
                            assert((base + escape_seq(b))[out@.len() as int] == escape_seq(b)[k]);
                            assert(0x20 <= x <= 0x7e);
                        }
                        out.push(x);
                        proof {
                            assert(out@ + esc.remaining() =~= base + escape_seq(b));
                        }
                    },
                    None => {
                        proof {
                            assert(out@ + esc.remaining() =~= out@);
                        }
                        break ;
                    },
                }
            }
            proof {
                lemma_escaped_bytes_snoc(bytes@, i as int);
                assert(out@ =~= seq![0x22u8] + escaped_bytes(bytes@.take(i as int + 1)));
            }
            i = i + 1;
        }
        out.push(0x22);
        proof {
            assert(bytes@.take(n as int) =~= bytes@);
            assert(out@ =~= seq![0x22u8] + escaped_bytes(bytes@) + seq![0x22u8]);
        }
        ascii_string(out)
    }
}

impl CString {
    /// Renders the payload for diagnostics, exactly as the borrowed view
    /// does.
    pub fn to_debug_string(&self) -> (r: String)
        ensures
            r@ == debug_chars(payload(self@)),
    {
        self.as_c_str().to_debug_string()
    }
}

} // verus!
