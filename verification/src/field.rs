//! One atomic element within a sector: a fixed-width integer, a
//! null-terminated string, raw bytes, a pointer to a position inside another
//! sector, zero padding out to a fixed offset, or an external blob supplied
//! at emission.

use vstd::prelude::*;

use crate::builder::{externals_model, ExternalData, SerialBuilder};
use crate::encode::{push_bytes, push_le_bytes};
use crate::error::{ErrorModel, SerialError};
use crate::model::{
    field_emit, field_size, field_wf, lemma_externals_find_hit, lemma_externals_find_miss,
    width_limit, FieldModel,
};
use crate::rounding::{lemma_apply_floor_bump, spec_apply, Rounding};
use crate::tracker::SerialTracker;
use crate::u24::U24;

verus! {

/// One field of a sector. `S` is the user's sector-key type.
#[derive(Debug, Clone)]
pub enum SerialField<S> {
    /// References a position that is only known once the layout is complete:
    /// the byte offset from `origin`'s start to the start of field `index`
    /// inside `sector`, divided by `scale` with `rounding`, written in
    /// `bytes` little-endian bytes.
    Dynamic { origin: S, sector: S, index: usize, scale: usize, rounding: Rounding, bytes: usize },
    /// A blob whose data is supplied at emission under `path`; the declared
    /// `size` is trusted during sizing and checked at emission.
    External { path: String, size: usize },
    U8(u8),
    U16(u16),
    U24(U24),
    U32(u32),
    U64(u64),
    /// The UTF-8 bytes of a variable-width string; one null terminator
    /// follows them on the wire.
    String(Vec<u8>),
    /// Raw opaque bytes.
    Bytes(Vec<u8>),
    /// Fills with zero bytes up to offset `fill` from `origin`'s start.
    /// Fails if the write position is already past that target.
    Fill { origin: S, fill: usize },
}

impl<S> View for SerialField<S> {
    type V = FieldModel<S>;

    open spec fn view(&self) -> FieldModel<S> {
        match self {
            SerialField::Dynamic { origin, sector, index, scale, rounding, bytes } => {
                FieldModel::Dynamic {
                    origin: *origin,
                    sector: *sector,
                    index: *index,
                    scale: *scale,
                    rounding: *rounding,
                    bytes: *bytes,
                }
            },
            SerialField::External { path, size } => FieldModel::External {
                path: path@,
                size: *size,
            },
            SerialField::U8(v) => FieldModel::U8(*v),
            SerialField::U16(v) => FieldModel::U16(*v),
            SerialField::U24(v) => FieldModel::U24(v.spec_value()),
            SerialField::U32(v) => FieldModel::U32(*v),
            SerialField::U64(v) => FieldModel::U64(*v),
            SerialField::String(b) => FieldModel::String(b@),
            SerialField::Bytes(b) => FieldModel::Bytes(b@),
            SerialField::Fill { origin, fill } => FieldModel::Fill {
                origin: *origin,
                fill: *fill,
            },
        }
    }
}

impl<S: PartialEq + Clone> SerialField<S> {
    /// The size in bytes this field will occupy, when placed at absolute
    /// `offset` with the sector starts tracked so far.
    pub(crate) fn calculate_size(&self, offset: usize, tracker: &SerialTracker<S>) -> (r: Result<
        usize,
        SerialError<S>,
    >)
        requires
            crate::key_model::<S>(),
            tracker.wf(),
        ensures
            match r {
                Result::Ok(n) => field_size(self@, offset as int, tracker@) == Ok::<
                    int,
                    ErrorModel<S>,
                >(n as int),
                Result::Err(e) => field_size(self@, offset as int, tracker@) == Err::<
                    int,
                    ErrorModel<S>,
                >(e@),
            },
    {
        match self {
            SerialField::String(value) => {
                if value.len() == usize::MAX {
                    Err(SerialError::SizeOverflow)
                } else {
                    Ok(value.len() + 1)
                }
            },
            SerialField::Dynamic { bytes, .. } => Ok(*bytes),
            SerialField::U8(_) => Ok(1),
            SerialField::U16(_) => Ok(2),
            SerialField::U24(_) => Ok(3),
            SerialField::U32(_) => Ok(4),
            SerialField::U64(_) => Ok(8),
            SerialField::Bytes(value) => Ok(value.len()),
            SerialField::External { path: _, size } => Ok(*size),
            SerialField::Fill { origin, fill } => {
                match tracker.offset_from_origin(origin) {
                    Result::Ok(origin_position) => Self::fill_size(offset, origin_position, *fill),
                    Result::Err(e) => Err(e),
                }
            },
        }
    }

    /// Emits this field's bytes at the end of `out`, resolving pointers and
    /// fills against the completed tracker and external blobs against the
    /// supplied data. On failure nothing is written.
    #[verifier::loop_isolation(false)]
    #[verifier::spinoff_prover]
    #[verifier::rlimit(60)]
    pub(crate) fn build(
        &self,
        out: &mut Vec<u8>,
        sectors: &SerialBuilder<S>,
        tracker: &SerialTracker<S>,
        externals: &Vec<ExternalData>,
    ) -> (r: Result<(), SerialError<S>>)
        requires
            crate::key_model::<S>(),
            tracker.wf(),
            sectors.wf(),
            field_wf(self@),
        ensures
            match r {
                Result::Ok(_) => field_emit(
                    self@,
                    old(out)@.len() as int,
                    tracker@,
                    sectors@,
                    externals_model(externals@),
                ) matches Ok(b) && final(out)@ == old(out)@ + b,
                Result::Err(e) => field_emit(
                    self@,
                    old(out)@.len() as int,
                    tracker@,
                    sectors@,
                    externals_model(externals@),
                ) == Err::<Seq<u8>, ErrorModel<S>>(e@) && final(out)@ == old(out)@,
            },
    {
        match self {
            SerialField::String(value) => {
                push_bytes(out, value);
                out.push(0u8);
                proof {
                    assert(out@ =~= old(out)@ + (value@ + seq![0u8]));
                }
                Ok(())
            },
            SerialField::Bytes(value) => {
                push_bytes(out, value);
                Ok(())
            },
            SerialField::U8(value) => {
                push_le_bytes(out, *value as u64, 1);
                Ok(())
            },
            SerialField::U16(value) => {
                push_le_bytes(out, *value as u64, 2);
                Ok(())
            },
            SerialField::U24(value) => {
                push_le_bytes(out, value.value() as u64, 3);
                Ok(())
            },
            SerialField::U32(value) => {
                push_le_bytes(out, *value as u64, 4);
                Ok(())
            },
            SerialField::U64(value) => {
                push_le_bytes(out, *value, 8);
                Ok(())
            },
            SerialField::Dynamic { origin, sector, index, scale, rounding, bytes } => {
                if *bytes < 1 || *bytes > 4 {
                    return Err(SerialError::UnsupportedWidth { bytes: *bytes });
                }
                let raw = match tracker.offset_field_from_sector(
                    origin,
                    sector,
                    *index,
                    sectors,
                    tracker,
                ) {
                    Result::Ok(v) => v,
                    Result::Err(e) => {
                        return Err(e);
                    },
                };
                let limit = width_limit_exec(*bytes);
                let q = raw / *scale;
                let rm = raw % *scale;
                let bump: bool = match rounding {
                    Rounding::Floor => false,
                    Rounding::Ceiling => rm != 0,
                    Rounding::Nearest => raw % 2 == 1 && rm == *scale - 1,
                };
                proof {
                    lemma_apply_floor_bump(raw as int, *scale as int);
                    assert(spec_apply(*rounding, raw as int, *scale as int) == q as int + if bump {
                        1int
                    } else {
                        0int
                    });
                }
                if q > limit || (bump && q >= limit) {
                    return Err(SerialError::LayoutOverflow { value: raw, limit });
                }
                let scaled = if bump {
                    q + 1
                } else {
                    q
                };
                push_le_bytes(out, scaled as u64, *bytes);
                Ok(())
            },
            SerialField::Fill { origin, fill } => {
                let position = out.len();
                let origin_position = match tracker.offset_from_origin(origin) {
                    Result::Ok(v) => v,
                    Result::Err(e) => {
                        return Err(e);
                    },
                };
                let count = match Self::fill_size(position, origin_position, *fill) {
                    Result::Ok(v) => v,
                    Result::Err(e) => {
                        return Err(e);
                    },
                };
                let mut c: usize = 0;
                while c < count
                    invariant
                        0 <= c <= count,
                        out@ == old(out)@ + Seq::new(c as nat, |q: int| 0u8),
                    decreases count - c,
                {
                    out.push(0u8);
                    proof {
                        assert(out@ =~= old(out)@ + Seq::new(c as nat + 1, |q: int| 0u8));
                    }
                    c += 1;
                }
                Ok(())
            },
            SerialField::External { path, size } => {
                let n = externals.len();
                let mut i: usize = 0;
                while i < n
                    invariant
                        0 <= i <= n,
                        n == externals@.len(),
                        out@ == old(out)@,
                        forall|j: int|
                            0 <= j < i ==> externals_model(externals@)[j].0 != path@,
                    decreases n - i,
                {
                    if externals[i].path == *path {
                        proof {
                            lemma_externals_find_hit(externals_model(externals@), path@, i as int);
                        }
                        let data = &externals[i].data;
                        if data.len() != *size {
                            let found = data.len();
                            return Err(
                                SerialError::ExternalMismatch {
                                    path: path.clone(),
                                    expected: *size,
                                    found,
                                },
                            );
                        }
                        push_bytes(out, data);
                        return Ok(());
                    }
                    i += 1;
                }
                proof {
                    lemma_externals_find_miss(externals_model(externals@), path@);
                }
                Err(SerialError::ExternalMissing { path: path.clone() })
            },
        }
    }

    /// How many zero bytes a fill at `offset` must produce to reach offset
    /// `fill` from an origin that starts at `origin_position`.
    fn fill_size(offset: usize, origin_position: usize, fill: usize) -> (r: Result<
        usize,
        SerialError<S>,
    >)
        ensures
            match r {
                Result::Ok(n) => offset >= origin_position && offset - origin_position <= fill
                    && n == origin_position + fill - offset,
                Result::Err(e) => e@ == if offset < origin_position {
                    ErrorModel::<S>::LayoutUnderflow {
                        position: offset,
                        origin_start: origin_position,
                    }
                } else {
                    ErrorModel::<S>::LayoutOverflow {
                        value: (offset - origin_position) as usize,
                        limit: fill,
                    }
                } && (offset < origin_position || offset - origin_position > fill),
            },
    {
        if offset < origin_position {
            return Err(
                SerialError::LayoutUnderflow { position: offset, origin_start: origin_position },
            );
        }
        let fill_start = offset - origin_position;
        if fill_start > fill {
            return Err(SerialError::LayoutOverflow { value: fill_start, limit: fill });
        }
        Ok(fill - fill_start)
    }
}

/// The largest value a pointer of the given byte width can carry.
fn width_limit_exec(bytes: usize) -> (r: usize)
    requires
        1 <= bytes <= 4,
    ensures
        r as int == width_limit(bytes),
{
    proof {
        assert(crate::encode::pow256(0) == 1);
        assert(crate::encode::pow256(1) == 256);
        assert(crate::encode::pow256(2) == 0x10000);
        assert(crate::encode::pow256(3) == 0x1000000);
        assert(crate::encode::pow256(4) == 0x100000000);
    }
    if bytes == 1 {
        0xFF
    } else if bytes == 2 {
        0xFFFF
    } else if bytes == 3 {
        0xFFFFFF
    } else {
        0xFFFFFFFF
    }
}

} // verus!
