//! Rendering a single byte as a short printable escape sequence for
//! diagnostic display.

use vstd::prelude::*;

verus! {

/// The lowercase hex digit for a value below 16.
pub open spec fn hex_digit(n: u8) -> u8 {
    if n < 10 {
        (0x30 + n) as u8
    } else {
        (0x61 + (n - 10)) as u8
    }
}

/// The escape rendering of one byte. Tab, carriage return, line feed,
/// backslash and both quote characters are backslash-escaped; other bytes in
/// the printable range `[0x20, 0x7e]` stand for themselves; everything else
/// becomes a four-character lowercase hex escape `\xHH`.
pub open spec fn escape_seq(c: u8) -> Seq<u8> {
    if c == 0x09 {
        seq![0x5c, 0x74]
    } else if c == 0x0d {
        seq![0x5c, 0x72]
    } else if c == 0x0a {
        seq![0x5c, 0x6e]
    } else if c == 0x5c {
        seq![0x5c, 0x5c]
    } else if c == 0x27 {
        seq![0x5c, 0x27]
    } else if c == 0x22 {
        seq![0x5c, 0x22]
    } else if 0x20 <= c && c <= 0x7e {
        seq![c]
    } else {
        seq![0x5c, 0x78, hex_digit(c / 16), hex_digit(c % 16)]
    }
}

/// Every escape rendering is short and made of printable ASCII bytes.
pub proof fn lemma_escape_seq_ascii(c: u8)
    ensures
        1 <= escape_seq(c).len() <= 4,
        forall|i: int|
            0 <= i < escape_seq(c).len() ==> 0x20 <= #[trigger] escape_seq(c)[i] <= 0x7e,
{
}

/// A finite, restartable cursor over the escaped version of a byte, iterable
/// from either end, with an exact length known up front.
pub struct EscapeDefault {
    data: [u8; 4],
    start: usize,
    end: usize,
}

impl EscapeDefault {
    #[verifier::type_invariant]
    spec fn bounds_ok(self) -> bool {
        self.start <= self.end <= 4
    }

    /// The escape elements not yet yielded.
    pub closed spec fn remaining(self) -> Seq<u8> {
        self.data@.subrange(self.start as int, self.end as int)
    }

    /// Takes the next escape element from the front.
    pub fn next(&mut self) -> (r: Option<u8>)
        ensures
            old(self).remaining().len() == 0 ==> r is None && final(self).remaining()
                == old(self).remaining(),
            old(self).remaining().len() > 0 ==> r == Some(old(self).remaining()[0]) && final(self).remaining() == old(self).remaining().drop_first(),
    {
        proof {
            use_type_invariant(&*self);
        }
        if self.start < self.end {
            let v = self.data[self.start];
            self.start = self.start + 1;
            proof {
                assert(final(self).remaining() =~= old(self).remaining().drop_first());
            }
            Some(v)
        } else {
            None
        }
    }

    /// Takes the next escape element from the back.
    pub fn next_back(&mut self) -> (r: Option<u8>)
        ensures
            old(self).remaining().len() == 0 ==> r is None && final(self).remaining()
                == old(self).remaining(),
            old(self).remaining().len() > 0 ==> r == Some(old(self).remaining().last()) && final(self).remaining() == old(self).remaining().drop_last(),
    {
        proof {
            use_type_invariant(&*self);
        }
        if self.start < self.end {
            let v = self.data[self.end - 1];
            self.end = self.end - 1;
            proof {
                assert(final(self).remaining() =~= old(self).remaining().drop_last());
            }
            Some(v)
        } else {
            None
        }
    }

    /// The number of elements still to come, as a lower and an upper bound.
    pub fn size_hint(&self) -> (r: (usize, Option<usize>))
        ensures
            r.0 == self.remaining().len(),
            r.1 == Some(self.remaining().len() as usize),
    {
        proof {
            use_type_invariant(self);
        }
        (self.end - self.start, Some(self.end - self.start))
    }
}

/// The exec mirror of `hex_digit`.
fn hexify(n: u8) -> (r: u8)
    requires
        n < 16,
    ensures
        r == hex_digit(n),
{
    if n < 10 {
        0x30 + n
    } else {
        0x61 + (n - 10)
    }
}

/// Returns a cursor that produces the escaped version of `c`, exactly the
/// bytes of `escape_seq`.
pub fn escape_default(c: u8) -> (r: EscapeDefault)
    ensures
        r.remaining() == escape_seq(c),
{
    let (data, len): ([u8; 4], usize) = if c == 0x09 {
        ([0x5c, 0x74, 0, 0], 2)
    } else if c == 0x0d {
        ([0x5c, 0x72, 0, 0], 2)
    } else if c == 0x0a {
        ([0x5c, 0x6e, 0, 0], 2)
    } else if c == 0x5c {
        ([0x5c, 0x5c, 0, 0], 2)
    } else if c == 0x27 {
        ([0x5c, 0x27, 0, 0], 2)
    } else if c == 0x22 {
        ([0x5c, 0x22, 0, 0], 2)
    } else if 0x20 <= c && c <= 0x7e {
        ([c, 0, 0, 0], 1)
    } else {
        ([0x5c, 0x78, hexify(c / 16), hexify(c % 16)], 4)
    };
    let r = EscapeDefault { data, start: 0, end: len };
    proof {
        assert(r.remaining() =~= escape_seq(c));
    }
    r
}

} // verus!
