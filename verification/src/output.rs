//! The shapes an asset can be written out in.

use vstd::prelude::*;

verus! {

/// The output format of a built asset.
#[derive(Debug, Clone, PartialEq, Eq, Structural)]
pub enum OutputType {
    /// An assembly source file.
    Assembly,
    /// The raw binary asset with no header.
    Binary,
    /// A C header file.
    C,
}

} // verus!
