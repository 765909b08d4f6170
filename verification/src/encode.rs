//! Little-endian byte encoding of unsigned integers with an arbitrary byte
//! width, shared by every fixed-width field and by resolved pointer values.

use vstd::prelude::*;

verus! {

/// `256 ^ width`: the number of values a little-endian encoding of `width`
/// bytes can hold.
pub open spec fn pow256(width: nat) -> int
    decreases width,
{
    if width == 0 {
        1
    } else {
        256 * pow256((width - 1) as nat)
    }
}

/// The little-endian encoding of the low `width` bytes of `value`.
pub open spec fn le_bytes(value: int, width: nat) -> Seq<u8>
    recommends
        value >= 0,
    decreases width,
{
    if width == 0 {
        Seq::empty()
    } else {
        seq![(value % 256) as u8] + le_bytes(value / 256, (width - 1) as nat)
    }
}

/// The integer a little-endian byte sequence stands for.
pub open spec fn le_int(s: Seq<u8>) -> int
    decreases s.len(),
{
    if s.len() == 0 {
        0
    } else {
        s[0] + 256 * le_int(s.drop_first())
    }
}

pub broadcast proof fn lemma_le_bytes_len(value: int, width: nat)
    ensures
        (#[trigger] le_bytes(value, width)).len() == width,
    decreases width,
{
    if width > 0 {
        lemma_le_bytes_len(value / 256, (width - 1) as nat);
    }
}

/// Decoding inverts encoding whenever the value fits the width.
pub proof fn lemma_le_int_of_le_bytes(value: int, width: nat)
    requires
        0 <= value < pow256(width),
    ensures
        le_int(le_bytes(value, width)) == value,
    decreases width,
{
    if width > 0 {
        let rest = value / 256;
        vstd::arithmetic::div_mod::lemma_fundamental_div_mod(value, 256);
        vstd::arithmetic::div_mod::lemma_mod_pos_bound(value, 256);
        vstd::arithmetic::div_mod::lemma_div_basics_4(value, 256);
        assert(rest < pow256((width - 1) as nat)) by {
            vstd::arithmetic::div_mod::lemma_fundamental_div_mod(value, 256);
            assert(256 * rest <= value) by {
                vstd::arithmetic::div_mod::lemma_mod_pos_bound(value, 256);
            }
            assert(256 * rest < 256 * pow256((width - 1) as nat));
            vstd::arithmetic::mul::lemma_mul_strict_inequality_converse(
                rest,
                pow256((width - 1) as nat),
                256,
            );
        }
        lemma_le_int_of_le_bytes(rest, (width - 1) as nat);
        assert(le_bytes(value, width).drop_first() =~= le_bytes(rest, (width - 1) as nat));
    }
}

/// Appends a copy of the given bytes.
pub fn push_bytes(out: &mut Vec<u8>, data: &Vec<u8>)
    ensures
        final(out)@ == old(out)@ + data@,
{
    let n = data.len();
    let mut i: usize = 0;
    while i < n
        invariant
            0 <= i <= n,
            n == data@.len(),
            out@ == old(out)@ + data@.take(i as int),
        decreases n - i,
    {
        out.push(data[i]);
        proof {
            assert(out@ =~= old(out)@ + data@.take(i as int + 1));
        }
        i += 1;
    }
    proof {
        assert(out@ =~= old(out)@ + data@);
    }
}

/// Appends the little-endian encoding of the low `width` bytes of `value`.
pub fn push_le_bytes(out: &mut Vec<u8>, value: u64, width: usize)
    ensures
        final(out)@ == old(out)@ + le_bytes(value as int, width as nat),
    decreases width,
{
    if width == 0 {
        assert(out@ =~= out@ + le_bytes(value as int, 0));
    } else {
        out.push((value % 256) as u8);
        push_le_bytes(out, value / 256, width - 1);
        assert(out@ =~= old(out)@ + le_bytes(value as int, width as nat));
    }
}

} // verus!
