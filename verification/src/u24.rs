//! A three-byte unsigned integer: the width in which pointer tables and
//! medium-range literals are stored on the wire.

use vstd::prelude::*;

use crate::encode::le_bytes;

verus! {

/// The largest value a three-byte unsigned integer can hold.
pub const U24_MAX: u32 = 0xFFFFFF;

/// An unsigned integer of exactly three bytes, stored little-endian on the
/// wire. The carried value never exceeds [`U24_MAX`].
#[derive(Clone, Copy, Debug, PartialEq, Eq, Structural)]
pub struct U24 {
    value: u32,
}

impl U24 {
    /// The carried value, as a mathematical integer.
    pub closed spec fn spec_value(self) -> int {
        self.value as int
    }

    pub open spec fn wf(self) -> bool {
        0 <= self.spec_value() <= U24_MAX
    }

    /// Wraps a value known to fit three bytes.
    pub fn new(value: u32) -> (r: Self)
        requires
            value <= U24_MAX,
        ensures
            r.spec_value() == value,
            r.wf(),
    {
        U24 { value }
    }

    /// Wraps the value if it fits three bytes.
    pub fn checked_from_u32(value: u32) -> (r: Option<Self>)
        ensures
            value <= U24_MAX ==> (r matches Some(v) && v.spec_value() == value && v.wf()),
            value > U24_MAX ==> r is None,
    {
        if value <= U24_MAX {
            Some(U24 { value })
        } else {
            None
        }
    }

    /// Reads three little-endian bytes.
    pub fn from_le_bytes(bytes: [u8; 3]) -> (r: Self)
        ensures
            r.wf(),
            le_bytes(r.spec_value(), 3) == bytes@,
    {
        let b0 = bytes[0] as u32;
        let b1 = bytes[1] as u32;
        let b2 = bytes[2] as u32;
        let value = b0 + b1 * 0x100 + b2 * 0x10000;
        proof {
            lemma_le_bytes_three(value as int, b0 as int, b1 as int, b2 as int);
            assert(le_bytes(value as int, 3) =~= bytes@);
        }
        U24 { value }
    }

    /// The three little-endian bytes of the value.
    pub fn to_le_bytes(self) -> (r: [u8; 3])
        requires
            self.wf(),
        ensures
            r@ == le_bytes(self.spec_value(), 3),
    {
        let v = self.value;
        let r = [(v % 0x100) as u8, ((v / 0x100) % 0x100) as u8, ((v / 0x10000) % 0x100) as u8];
        proof {
            lemma_le_bytes_three(
                v as int,
                (v as int) % 256,
                ((v as int) / 256) % 256,
                ((v as int) / 65536) % 256,
            );
            assert(r@ =~= le_bytes(self.spec_value(), 3));
        }
        r
    }

    /// The carried value widened to four bytes.
    pub fn value(self) -> (r: u32)
        ensures
            r == self.spec_value(),
    {
        self.value
    }
}

/// A value below `2^24` splits into exactly the three little-endian digits
/// given by its base-256 remainders.
proof fn lemma_le_bytes_three(v: int, b0: int, b1: int, b2: int)
    requires
        0 <= v <= U24_MAX,
        b0 == v % 256,
        b1 == (v / 256) % 256,
        b2 == (v / 65536) % 256,
    ensures
        le_bytes(v, 3) == seq![b0 as u8, b1 as u8, b2 as u8],
        0 <= b0 < 256,
        0 <= b1 < 256,
        0 <= b2 < 256,
        v == b0 + b1 * 0x100 + b2 * 0x10000,
{
    vstd::arithmetic::div_mod::lemma_fundamental_div_mod(v, 256);
    vstd::arithmetic::div_mod::lemma_mod_pos_bound(v, 256);
    vstd::arithmetic::div_mod::lemma_fundamental_div_mod(v / 256, 256);
    vstd::arithmetic::div_mod::lemma_mod_pos_bound(v / 256, 256);
    vstd::arithmetic::div_mod::lemma_div_basics_4(v, 256);
    vstd::arithmetic::div_mod::lemma_div_basics_4(v / 256, 256);
    assert(v / 256 / 256 == v / 65536) by {
        vstd::arithmetic::div_mod::lemma_div_denominator(v, 256, 256);
    }
    assert(v / 65536 < 256) by {
        vstd::arithmetic::div_mod::lemma_div_is_ordered(v, 0xFFFFFF, 65536);
    }
    assert(v / 65536 % 256 == v / 65536) by {
        vstd::arithmetic::div_mod::lemma_small_mod((v / 65536) as nat, 256);
    }
    assert(v / 256 / 256 / 256 == 0) by {
        vstd::arithmetic::div_mod::lemma_basic_div(v / 65536, 256);
    }
    assert(le_bytes(v / 65536 / 256, 0) =~= Seq::<u8>::empty());
    assert(le_bytes(v / 65536, 1) =~= seq![b2 as u8]);
    assert(le_bytes(v / 256, 2) =~= seq![b1 as u8] + le_bytes(v / 65536, 1));
    assert(le_bytes(v, 3) =~= seq![b0 as u8] + le_bytes(v / 256, 2));
    assert(le_bytes(v, 3) =~= seq![b0 as u8, b1 as u8, b2 as u8]);
}

} // verus!
