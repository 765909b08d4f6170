//! The policy for converting a raw byte offset into a scaled pointer value:
//! the offset is divided by a scale, and the quotient is rounded down, up, or
//! by the parity rule of `Nearest`.

use vstd::prelude::*;

verus! {

/// How the quotient `value / scale` is rounded when a pointer is scaled.
#[derive(Clone, Copy, Debug, PartialEq, Eq, Structural)]
pub enum Rounding {
    /// Round the quotient down.
    Floor,
    /// Round the quotient up.
    Ceiling,
    /// The literal parity rule: an even value rounds down, an odd value `v`
    /// is replaced by `v + 1` before dividing. This is not half-to-even.
    Nearest,
}

impl Default for Rounding {
    fn default() -> (r: Self)
        ensures
            r == Rounding::Floor,
    {
        Rounding::Floor
    }
}

/// The scaled pointer value: `value / scale` rounded by the given policy.
pub open spec fn spec_apply(rounding: Rounding, value: int, scale: int) -> int
    recommends
        value >= 0,
        scale >= 1,
{
    match rounding {
        Rounding::Floor => value / scale,
        Rounding::Ceiling => if value % scale == 0 {
            value / scale
        } else {
            value / scale + 1
        },
        Rounding::Nearest => if value % 2 == 0 {
            value / scale
        } else {
            (value + 1) / scale
        },
    }
}

impl Rounding {
    /// Divides `value` by `scale` and rounds the quotient by this policy.
    pub fn apply(self, value: usize, scale: usize) -> (r: usize)
        requires
            scale >= 1,
            spec_apply(self, value as int, scale as int) <= usize::MAX,
        ensures
            r == spec_apply(self, value as int, scale as int),
    {
        proof {
            lemma_div_succ(value as int, scale as int);
            vstd::arithmetic::div_mod::lemma_div_basics_4(value as int, scale as int);
        }
        match self {
            Rounding::Floor => value / scale,
            Rounding::Ceiling => {
                if value % scale == 0 {
                    value / scale
                } else {
                    value / scale + 1
                }
            },
            Rounding::Nearest => {
                if value % 2 == 0 {
                    value / scale
                } else {
                    value / scale + if value % scale == scale - 1 {
                        1
                    } else {
                        0
                    }
                }
            },
        }
    }
}

/// Incrementing the dividend bumps the quotient exactly when the remainder
/// was one short of the divisor.
proof fn lemma_div_succ(v: int, s: int)
    requires
        v >= 0,
        s >= 1,
    ensures
        (v + 1) / s == v / s + if v % s == s - 1 {
            1int
        } else {
            0int
        },
{
    vstd::arithmetic::div_mod::lemma_fundamental_div_mod(v, s);
    vstd::arithmetic::div_mod::lemma_mod_pos_bound(v, s);
    let q = v / s;
    assert(s * q == q * s) by {
        vstd::arithmetic::mul::lemma_mul_is_commutative(s, q);
    }
    if v % s == s - 1 {
        assert(v + 1 == (q + 1) * s + 0) by {
            vstd::arithmetic::mul::lemma_mul_is_distributive_add_other_way(s, q, 1);
        }
        vstd::arithmetic::div_mod::lemma_fundamental_div_mod_converse(v + 1, s, q + 1, 0);
    } else {
        vstd::arithmetic::div_mod::lemma_fundamental_div_mod_converse(v + 1, s, q, v % s + 1);
    }
}

/// Each policy is the floored quotient plus an explicit carry: `Ceiling`
/// carries on any remainder, `Nearest` carries exactly when the value is odd
/// and its remainder is one short of the scale.
pub proof fn lemma_apply_floor_bump(v: int, s: int)
    requires
        v >= 0,
        s >= 1,
    ensures
        spec_apply(Rounding::Floor, v, s) == v / s,
        spec_apply(Rounding::Ceiling, v, s) == v / s + if v % s == 0 {
            0int
        } else {
            1int
        },
        spec_apply(Rounding::Nearest, v, s) == v / s + if v % 2 != 0 && v % s == s - 1 {
            1int
        } else {
            0int
        },
        v / s >= 0,
{
    vstd::arithmetic::div_mod::lemma_div_basics_4(v, s);
    lemma_div_succ(v, s);
}

/// The rounding law. `Floor` is the integer quotient; `Ceiling` is the least
/// integer at or above the exact quotient, characterized by bracketing
/// multiples of the scale; `Nearest` rounds an even value down and an odd
/// value `v` as `(v + 1) / scale`.
pub proof fn lemma_rounding_law(v: int, s: int)
    requires
        v >= 0,
        s >= 1,
    ensures
        spec_apply(Rounding::Floor, v, s) == v / s,
        spec_apply(Rounding::Floor, v, s) * s <= v < (spec_apply(Rounding::Floor, v, s) + 1) * s,
        spec_apply(Rounding::Ceiling, v, s) * s >= v > (spec_apply(Rounding::Ceiling, v, s) - 1)
            * s,
        v % 2 == 0 ==> spec_apply(Rounding::Nearest, v, s) == v / s,
        v % 2 != 0 ==> spec_apply(Rounding::Nearest, v, s) == (v + 1) / s,
{
    vstd::arithmetic::div_mod::lemma_fundamental_div_mod(v, s);
    vstd::arithmetic::div_mod::lemma_mod_bound(v, s);
    let f = v / s;
    assert(f * s <= v < (f + 1) * s) by {
        assert(v == s * f + v % s);
        assert(s * f == f * s) by {
            vstd::arithmetic::mul::lemma_mul_is_commutative(s, f);
        }
        assert((f + 1) * s == f * s + s) by {
            vstd::arithmetic::mul::lemma_mul_is_distributive_add_other_way(s, f, 1);
        }
    }
    let c = spec_apply(Rounding::Ceiling, v, s);
    assert(c * s >= v > (c - 1) * s) by {
        assert(v == s * f + v % s);
        if v % s == 0 {
            assert(c == f);
            assert(c * s == s * f) by {
                vstd::arithmetic::mul::lemma_mul_is_commutative(c, s);
            }
            assert((c - 1) * s == c * s - s) by {
                vstd::arithmetic::mul::lemma_mul_is_distributive_sub_other_way(s, c, 1);
            }
        } else {
            assert(c == f + 1);
            assert(f * s == s * f) by {
                vstd::arithmetic::mul::lemma_mul_is_commutative(s, f);
            }
            assert(c * s == f * s + s) by {
                vstd::arithmetic::mul::lemma_mul_is_distributive_add_other_way(s, f, 1);
            }
        }
    }
}

} // verus!
