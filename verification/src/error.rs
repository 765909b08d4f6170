//! Everything that can go wrong while laying out or emitting a sector graph.
//! Every failure is fatal to the current build and carries the offending
//! key, offsets, or sizes.

use vstd::prelude::*;

verus! {

/// A layout or emission failure. `S` is the user's sector-key type.
#[derive(Debug, Clone, PartialEq, Eq)]
pub enum SerialError<S> {
    /// A fill's write position precedes its origin's start.
    LayoutUnderflow { position: usize, origin_start: usize },
    /// A fill's target offset is already passed, or a pointer value exceeds
    /// the capacity of its declared width.
    LayoutOverflow { value: usize, limit: usize },
    /// A pointer or fill references a key that is absent — or, during the
    /// sizing pass, not yet placed.
    MissingSector(S),
    /// A pointer's target sector starts before its origin sector.
    OrderingViolation { origin_start: usize, target_start: usize },
    /// A pointer's field index exceeds the target sector's field count.
    IndexOutOfRange { length: usize, index: usize },
    /// A pointer's declared byte width is not one of 1, 2, 3, 4.
    UnsupportedWidth { bytes: usize },
    /// An external blob's supplied data differs in length from its declared
    /// size.
    ExternalMismatch { path: String, expected: usize, found: usize },
    /// No data was supplied for an external blob's path.
    ExternalMissing { path: String },
    /// The layout does not fit the machine's address width.
    SizeOverflow,
}

/// The abstract value of a [`SerialError`], with string payloads as
/// character sequences. The layout and emission models yield these.
pub ghost enum ErrorModel<S> {
    LayoutUnderflow { position: usize, origin_start: usize },
    LayoutOverflow { value: usize, limit: usize },
    MissingSector(S),
    OrderingViolation { origin_start: usize, target_start: usize },
    IndexOutOfRange { length: usize, index: usize },
    UnsupportedWidth { bytes: usize },
    ExternalMismatch { path: Seq<char>, expected: usize, found: usize },
    ExternalMissing { path: Seq<char> },
    SizeOverflow,
}

impl<S> View for SerialError<S> {
    type V = ErrorModel<S>;

    open spec fn view(&self) -> ErrorModel<S> {
        match self {
            SerialError::LayoutUnderflow { position, origin_start } => ErrorModel::LayoutUnderflow {
                position: *position,
                origin_start: *origin_start,
            },
            SerialError::LayoutOverflow { value, limit } => ErrorModel::LayoutOverflow {
                value: *value,
                limit: *limit,
            },
            SerialError::MissingSector(key) => ErrorModel::MissingSector(*key),
            SerialError::OrderingViolation { origin_start, target_start } => {
                ErrorModel::OrderingViolation {
                    origin_start: *origin_start,
                    target_start: *target_start,
                }
            },
            SerialError::IndexOutOfRange { length, index } => ErrorModel::IndexOutOfRange {
                length: *length,
                index: *index,
            },
            SerialError::UnsupportedWidth { bytes } => ErrorModel::UnsupportedWidth {
                bytes: *bytes,
            },
            SerialError::ExternalMismatch { path, expected, found } => ErrorModel::ExternalMismatch {
                path: path@,
                expected: *expected,
                found: *found,
            },
            SerialError::ExternalMissing { path } => ErrorModel::ExternalMissing { path: path@ },
            SerialError::SizeOverflow => ErrorModel::SizeOverflow,
        }
    }
}

impl<S> SerialError<S> {
    /// A short, fixed description of the failure kind. Formatting the
    /// carried key, offsets and sizes into the text is left to the caller.
    pub fn describe(&self) -> (r: &'static str)
        ensures
            r@.len() > 0,
    {
        let r = match self {
            SerialError::LayoutUnderflow { .. } => "fill position is before the fill origin",
            SerialError::LayoutOverflow { .. } => "offset exceeds the allowed limit",
            SerialError::MissingSector(_) => "sector does not exist",
            SerialError::OrderingViolation { .. } => "origin sector was ahead of target sector",
            SerialError::IndexOutOfRange { .. } => "not enough fields in the target sector",
            SerialError::UnsupportedWidth { .. } => "pointer width must be 1 to 4 bytes",
            SerialError::ExternalMismatch { .. } => "external data has an incorrect size",
            SerialError::ExternalMissing { .. } => "external data was not supplied",
            SerialError::SizeOverflow => "layout exceeds the addressable size",
        };
        proof {
            reveal_strlit("fill position is before the fill origin");
            reveal_strlit("offset exceeds the allowed limit");
            reveal_strlit("sector does not exist");
            reveal_strlit("origin sector was ahead of target sector");
            reveal_strlit("not enough fields in the target sector");
            reveal_strlit("pointer width must be 1 to 4 bytes");
            reveal_strlit("external data has an incorrect size");
            reveal_strlit("external data was not supplied");
            reveal_strlit("layout exceeds the addressable size");
        }
        r
    }
}

} // verus!
