//! A binary-asset serializer: assembles structured binary blobs from named
//! "sectors", each an ordered sequence of fields. Pointer fields are written
//! with the final byte offset of their referent, computed by a two-pass
//! layout: first every sector's absolute start offset is derived from field
//! sizes alone, then bytes are emitted with resolved pointer values.

use vstd::prelude::*;

pub mod builder;
pub mod cli;
pub mod encode;
pub mod error;
pub mod field;
pub mod font;
pub mod laws;
pub mod model;
pub mod output;
pub mod rounding;
pub mod sprite;
pub mod tracker;
pub mod u24;

verus! {

use vstd::std_specs::cmp::PartialEqSpec;

/// The sector-key type chosen by the user must behave as a value: `==` must
/// coincide with structural equality, and cloning a key must yield an equal
/// key. Every layout operation that looks keys up requires this.
pub open spec fn key_model<S: PartialEq + Clone>() -> bool {
    &&& S::obeys_eq_spec()
    &&& forall|x: S, y: S| #[trigger] x.eq_spec(&y) <==> x == y
    &&& forall|x: S, y: S| #[trigger] vstd::pervasive::cloned(x, y) ==> y == x
}

} // verus!
