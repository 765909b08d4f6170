//! The builder surface: an ordered mutable buffer of fields for one sector,
//! and the insertion-ordered mapping from sector key to sector that drives
//! the two-pass build.

use vstd::prelude::*;
use vstd::string::{StrSliceExecFns, StringSliceAdditionalSpecFns};

use crate::error::{ErrorModel, SerialError};
use crate::field::SerialField;
use crate::key_model;
use crate::model::{
    build_model, field_wf, fields_emit, graph_contains, graph_emit, graph_index_of,
    lemma_fields_emit_error, lemma_graph_emit_error, lemma_graph_index_of_absent,
    lemma_graph_index_of_unique, unique_keys, FieldModel, GraphModel,
};
use crate::tracker::SerialTracker;
use crate::rounding::Rounding;
use crate::u24::U24;

verus! {

/// An ordered sequence of fields making up one sector. Order is significant:
/// it defines both emission order and field indexing.
#[derive(Debug, Clone)]
pub struct SerialSectorBuilder<S> {
    pub(crate) fields: Vec<SerialField<S>>,
}

impl<S> View for SerialSectorBuilder<S> {
    type V = Seq<FieldModel<S>>;

    open(crate) spec fn view(&self) -> Seq<FieldModel<S>> {
        self.fields@.map_values(|f: SerialField<S>| f@)
    }
}

impl<S> SerialSectorBuilder<S> {
    /// Every field of the sector is sound.
    pub open spec fn wf(self) -> bool {
        forall|i: int| 0 <= i < self@.len() ==> field_wf(#[trigger] self@[i])
    }
}

impl<S> Default for SerialSectorBuilder<S> {
    /// An empty sector.
    fn default() -> (r: Self)
        ensures
            r@ == Seq::<FieldModel<S>>::empty(),
            r.wf(),
    {
        let r = SerialSectorBuilder { fields: Vec::new() };
        proof {
            assert(r@ =~= Seq::<FieldModel<S>>::empty());
        }
        r
    }
}

impl<S> SerialSectorBuilder<S> {
    /// Appends one field.
    fn field(self, field: SerialField<S>) -> (r: Self)
        requires
            self.wf(),
            field_wf(field@),
        ensures
            r@ == self@.push(field@),
            r.wf(),
    {
        let ghost pre = self@;
        let mut fields = self.fields;
        fields.push(field);
        let r = SerialSectorBuilder { fields };
        proof {
            assert(r@ =~= pre.push(field@));
        }
        r
    }

    /// Appends a null-terminated string: the UTF-8 bytes of `value` followed
    /// by one zero byte on the wire.
    pub fn string(self, value: &str) -> (r: Self)
        requires
            self.wf(),
        ensures
            r@ == self@.push(FieldModel::String(value.spec_bytes())),
            r.wf(),
    {
        self.field(SerialField::String(value.as_bytes_vec()))
    }

    /// Appends raw opaque bytes.
    pub fn bytes(self, value: Vec<u8>) -> (r: Self)
        requires
            self.wf(),
        ensures
            r@ == self@.push(FieldModel::Bytes(value@)),
            r.wf(),
    {
        self.field(SerialField::Bytes(value))
    }

    /// Appends a one-byte unsigned integer.
    pub fn u8(self, value: u8) -> (r: Self)
        requires
            self.wf(),
        ensures
            r@ == self@.push(FieldModel::U8(value)),
            r.wf(),
    {
        self.field(SerialField::U8(value))
    }

    /// Appends a one-byte signed integer, reinterpreted as its two's
    /// complement bits.
    pub fn i8(self, value: i8) -> (r: Self)
        requires
            self.wf(),
        ensures
            r@ == self@.push(FieldModel::U8(value as u8)),
            r.wf(),
    {
        self.field(SerialField::U8(value as u8))
    }

    /// Appends a two-byte little-endian unsigned integer.
    pub fn u16(self, value: u16) -> (r: Self)
        requires
            self.wf(),
        ensures
            r@ == self@.push(FieldModel::U16(value)),
            r.wf(),
    {
        self.field(SerialField::U16(value))
    }

    /// Appends a two-byte signed integer, reinterpreted as its two's
    /// complement bits.
    pub fn i16(self, value: i16) -> (r: Self)
        requires
            self.wf(),
        ensures
            r@ == self@.push(FieldModel::U16(value as u16)),
            r.wf(),
    {
        self.field(SerialField::U16(value as u16))
    }

    /// Appends a three-byte little-endian unsigned integer.
    pub fn u24(self, value: U24) -> (r: Self)
        requires
            self.wf(),
        ensures
            r@ == self@.push(FieldModel::U24(value.spec_value())),
            r.wf(),
    {
        self.field(SerialField::U24(value))
    }

    /// Appends a four-byte little-endian unsigned integer.
    pub fn u32(self, value: u32) -> (r: Self)
        requires
            self.wf(),
        ensures
            r@ == self@.push(FieldModel::U32(value)),
            r.wf(),
    {
        self.field(SerialField::U32(value))
    }

    /// Appends a four-byte signed integer, reinterpreted as its two's
    /// complement bits.
    pub fn i32(self, value: i32) -> (r: Self)
        requires
            self.wf(),
        ensures
            r@ == self@.push(FieldModel::U32(value as u32)),
            r.wf(),
    {
        self.field(SerialField::U32(value as u32))
    }

    /// Appends an eight-byte little-endian unsigned integer.
    pub fn u64(self, value: u64) -> (r: Self)
        requires
            self.wf(),
        ensures
            r@ == self@.push(FieldModel::U64(value)),
            r.wf(),
    {
        self.field(SerialField::U64(value))
    }

    /// Appends an eight-byte signed integer, reinterpreted as its two's
    /// complement bits.
    pub fn i64(self, value: i64) -> (r: Self)
        requires
            self.wf(),
        ensures
            r@ == self@.push(FieldModel::U64(value as u64)),
            r.wf(),
    {
        self.field(SerialField::U64(value as u64))
    }

    /// Appends a zero-valued one-byte field.
    pub fn null_8(self) -> (r: Self)
        requires
            self.wf(),
        ensures
            r@ == self@.push(FieldModel::U8(0)),
            r.wf(),
    {
        self.field(SerialField::U8(0))
    }

    /// Appends a zero-valued two-byte field.
    pub fn null_16(self) -> (r: Self)
        requires
            self.wf(),
        ensures
            r@ == self@.push(FieldModel::U16(0)),
            r.wf(),
    {
        self.field(SerialField::U16(0))
    }

    /// Appends a zero-valued three-byte field.
    pub fn null_24(self) -> (r: Self)
        requires
            self.wf(),
        ensures
            r@ == self@.push(FieldModel::U24(0)),
            r.wf(),
    {
        self.field(SerialField::U24(U24::new(0)))
    }

    /// Appends a zero-valued four-byte field.
    pub fn null_32(self) -> (r: Self)
        requires
            self.wf(),
        ensures
            r@ == self@.push(FieldModel::U32(0)),
            r.wf(),
    {
        self.field(SerialField::U32(0))
    }

    /// Appends a zero-valued eight-byte field.
    pub fn null_64(self) -> (r: Self)
        requires
            self.wf(),
        ensures
            r@ == self@.push(FieldModel::U64(0)),
            r.wf(),
    {
        self.field(SerialField::U64(0))
    }

    /// Appends a pointer with the given scale, rounding and byte width.
    pub fn dynamic(
        self,
        origin: S,
        sector: S,
        index: usize,
        scale: usize,
        rounding: Rounding,
        bytes: usize,
    ) -> (r: Self)
        requires
            self.wf(),
            scale >= 1,
        ensures
            r@ == self@.push(
                FieldModel::Dynamic { origin, sector, index, scale, rounding, bytes },
            ),
            r.wf(),
    {
        self.field(SerialField::Dynamic { origin, sector, index, scale, rounding, bytes })
    }

    /// Appends a one-byte pointer in plain bytes.
    pub fn dynamic_u8(self, origin: S, sector: S, index: usize) -> (r: Self)
        requires
            self.wf(),
        ensures
            r@ == self@.push(
                FieldModel::Dynamic {
                    origin,
                    sector,
                    index,
                    scale: 1,
                    rounding: Rounding::Floor,
                    bytes: 1,
                },
            ),
            r.wf(),
    {
        self.dynamic(origin, sector, index, 1, Rounding::Floor, 1)
    }

    /// Appends a one-byte pointer counted in chunks of `scale` bytes.
    pub fn dynamic_u8_chunk(self, origin: S, sector: S, index: usize, scale: usize) -> (r: Self)
        requires
            self.wf(),
            scale >= 1,
        ensures
            r@ == self@.push(
                FieldModel::Dynamic {
                    origin,
                    sector,
                    index,
                    scale,
                    rounding: Rounding::Floor,
                    bytes: 1,
                },
            ),
            r.wf(),
    {
        self.dynamic(origin, sector, index, scale, Rounding::Floor, 1)
    }

    /// Appends a two-byte pointer in plain bytes.
    pub fn dynamic_u16(self, origin: S, sector: S, index: usize) -> (r: Self)
        requires
            self.wf(),
        ensures
            r@ == self@.push(
                FieldModel::Dynamic {
                    origin,
                    sector,
                    index,
                    scale: 1,
                    rounding: Rounding::Floor,
                    bytes: 2,
                },
            ),
            r.wf(),
    {
        self.dynamic(origin, sector, index, 1, Rounding::Floor, 2)
    }

    /// Appends a two-byte pointer counted in chunks of `scale` bytes.
    pub fn dynamic_u16_chunk(self, origin: S, sector: S, index: usize, scale: usize) -> (r: Self)
        requires
            self.wf(),
            scale >= 1,
        ensures
            r@ == self@.push(
                FieldModel::Dynamic {
                    origin,
                    sector,
                    index,
                    scale,
                    rounding: Rounding::Floor,
                    bytes: 2,
                },
            ),
            r.wf(),
    {
        self.dynamic(origin, sector, index, scale, Rounding::Floor, 2)
    }

    /// Appends a three-byte pointer in plain bytes.
    pub fn dynamic_u24(self, origin: S, sector: S, index: usize) -> (r: Self)
        requires
            self.wf(),
        ensures
            r@ == self@.push(
                FieldModel::Dynamic {
                    origin,
                    sector,
                    index,
                    scale: 1,
                    rounding: Rounding::Floor,
                    bytes: 3,
                },
            ),
            r.wf(),
    {
        self.dynamic(origin, sector, index, 1, Rounding::Floor, 3)
    }

    /// Appends a three-byte pointer counted in chunks of `scale` bytes.
    pub fn dynamic_u24_chunk(self, origin: S, sector: S, index: usize, scale: usize) -> (r: Self)
        requires
            self.wf(),
            scale >= 1,
        ensures
            r@ == self@.push(
                FieldModel::Dynamic {
                    origin,
                    sector,
                    index,
                    scale,
                    rounding: Rounding::Floor,
                    bytes: 3,
                },
            ),
            r.wf(),
    {
        self.dynamic(origin, sector, index, scale, Rounding::Floor, 3)
    }

    /// Appends a four-byte pointer in plain bytes.
    pub fn dynamic_u32(self, origin: S, sector: S, index: usize) -> (r: Self)
        requires
            self.wf(),
        ensures
            r@ == self@.push(
                FieldModel::Dynamic {
                    origin,
                    sector,
                    index,
                    scale: 1,
                    rounding: Rounding::Floor,
                    bytes: 4,
                },
            ),
            r.wf(),
    {
        self.dynamic(origin, sector, index, 1, Rounding::Floor, 4)
    }

    /// Appends a four-byte pointer counted in chunks of `scale` bytes.
    pub fn dynamic_u32_chunk(self, origin: S, sector: S, index: usize, scale: usize) -> (r: Self)
        requires
            self.wf(),
            scale >= 1,
        ensures
            r@ == self@.push(
                FieldModel::Dynamic {
                    origin,
                    sector,
                    index,
                    scale,
                    rounding: Rounding::Floor,
                    bytes: 4,
                },
            ),
            r.wf(),
    {
        self.dynamic(origin, sector, index, scale, Rounding::Floor, 4)
    }

    /// Appends zero padding out to offset `fill` from `origin`'s start.
    pub fn fill(self, origin: S, fill: usize) -> (r: Self)
        requires
            self.wf(),
        ensures
            r@ == self@.push(FieldModel::Fill { origin, fill }),
            r.wf(),
    {
        self.field(SerialField::Fill { origin, fill })
    }

    /// Appends an external blob of the declared size, to be supplied under
    /// `path` at emission.
    pub fn external(self, path: String, size: usize) -> (r: Self)
        requires
            self.wf(),
        ensures
            r@ == self@.push(FieldModel::External { path: path@, size }),
            r.wf(),
    {
        self.field(SerialField::External { path, size })
    }
}

/// The top level: sector keys mapped to their sectors, in insertion order.
/// Insertion order is layout order.
#[derive(Debug, Clone)]
pub struct SerialBuilder<S> {
    pub(crate) sectors: Vec<(S, SerialSectorBuilder<S>)>,
}

impl<S> View for SerialBuilder<S> {
    type V = GraphModel<S>;

    open(crate) spec fn view(&self) -> GraphModel<S> {
        self.sectors@.map_values(|p: (S, SerialSectorBuilder<S>)| (p.0, p.1@))
    }
}

impl<S> SerialBuilder<S> {
    /// Sector keys are pairwise distinct, and every field is sound.
    pub open spec fn wf(self) -> bool {
        &&& unique_keys(self@)
        &&& forall|i: int, j: int|
            0 <= i < self@.len() && 0 <= j < self@[i].1.len() ==> field_wf(#[trigger] self@[i].1[j])
    }
}

impl<S> Default for SerialBuilder<S> {
    /// A builder with no sectors.
    fn default() -> (r: Self)
        ensures
            r@ == Seq::<(S, Seq<FieldModel<S>>)>::empty(),
            r.wf(),
    {
        let r = SerialBuilder { sectors: Vec::new() };
        proof {
            assert(r@ =~= Seq::<(S, Seq<FieldModel<S>>)>::empty());
        }
        r
    }
}

impl<S: PartialEq + Clone> SerialBuilder<S> {
    /// Inserts a sector under a key. Inserting the same key twice replaces
    /// the prior sector silently, keeping its position.
    #[verifier::loop_isolation(false)]
    pub fn sector(self, key: S, builder: SerialSectorBuilder<S>) -> (r: Self)
        requires
            key_model::<S>(),
            self.wf(),
            builder.wf(),
        ensures
            r@ == if graph_contains(self@, key) {
                self@.update(graph_index_of(self@, key), (key, builder@))
            } else {
                self@.push((key, builder@))
            },
            r.wf(),
    {
        let ghost pre = self@;
        let mut sectors = self.sectors;
        let n = sectors.len();
        let mut i: usize = 0;
        while i < n
            invariant
                key_model::<S>(),
                n == sectors@.len(),
                0 <= i <= n,
                pre == sectors@.map_values(|p: (S, SerialSectorBuilder<S>)| (p.0, p.1@)),
                unique_keys(pre),
                forall|j: int| 0 <= j < i ==> pre[j].0 != key,
            decreases n - i,
        {
            if sectors[i].0 == key {
                proof {
                    lemma_graph_index_of_unique(pre, i as int);
                }
                let ghost bview = builder@;
                sectors[i] = (key, builder);
                let r = SerialBuilder { sectors };
                proof {
                    assert(r@ =~= pre.update(i as int, (key, bview)));
                    assert forall|x: int, y: int| 0 <= x < y < r@.len() implies r@[x].0
                        != r@[y].0 by {
                        assert(pre[x].0 != pre[y].0);
                    }
                    assert forall|x: int, j: int|
                        0 <= x < r@.len() && 0 <= j < r@[x].1.len() implies field_wf(
                        #[trigger] r@[x].1[j],
                    ) by {
                        if x != i as int {
                            assert(field_wf(pre[x].1[j]));
                        } else {
                            assert(field_wf(bview[j]));
                        }
                    }
                }
                return r;
            }
            i += 1;
        }
        proof {
            lemma_graph_index_of_absent(pre, key);
        }
        sectors.push((key, builder));
        let r = SerialBuilder { sectors };
        proof {
            assert(r@ =~= pre.push((key, builder@)));
        }
        r
    }

    /// Runs the two-pass build with external blobs supplied by the caller:
    /// sizes every sector, then emits every field in insertion order into a
    /// fresh byte buffer. On any failure no bytes are returned.
    #[verifier::loop_isolation(false)]
    #[verifier::spinoff_prover]
    #[verifier::rlimit(60)]
    pub fn build_with_externals(self, externals: &Vec<ExternalData>) -> (r: Result<
        Vec<u8>,
        SerialError<S>,
    >)
        requires
            key_model::<S>(),
            self.wf(),
        ensures
            match r {
                Result::Ok(out) => build_model(self@, externals_model(externals@)) == Ok::<
                    Seq<u8>,
                    ErrorModel<S>,
                >(out@),
                Result::Err(e) => build_model(self@, externals_model(externals@)) == Err::<
                    Seq<u8>,
                    ErrorModel<S>,
                >(e@),
            },
    {
        let tracker = match SerialTracker::new(&self) {
            Result::Ok(t) => t,
            Result::Err(e) => {
                return Err(e);
            },
        };
        let mut out: Vec<u8> = Vec::new();
        proof {
            assert(graph_emit(self@, 0, tracker@, externals_model(externals@)) == Ok::<
                Seq<u8>,
                ErrorModel<S>,
            >(Seq::<u8>::empty()));
            assert(out@ =~= Seq::<u8>::empty());
        }
        let n = self.sectors.len();
        let mut i: usize = 0;
        while i < n
            invariant
                0 <= i <= n,
                graph_emit(self@, i as int, tracker@, externals_model(externals@)) == Ok::<
                    Seq<u8>,
                    ErrorModel<S>,
                >(out@),
            decreases n - i,
        {
            let fields = &self.sectors[i].1;
            let ghost fm = self@[i as int].1;
            let ghost prefix = out@;
            let m = fields.fields.len();
            let mut j: usize = 0;
            while j < m
                invariant
                    0 <= j <= m,
                    fm == fields@,
                    m == fm.len(),
                    fields_emit(
                        fm,
                        j as int,
                        prefix.len() as int,
                        tracker@,
                        self@,
                        externals_model(externals@),
                    ) matches Ok(seg) && out@ == prefix + seg,
                decreases m - j,
            {
                match fields.fields[j].build(&mut out, &self, &tracker, externals) {
                    Result::Ok(_) => {},
                    Result::Err(e) => {
                        proof {
                            lemma_fields_emit_error(
                                fm,
                                j as int + 1,
                                fm.len() as int,
                                prefix.len() as int,
                                tracker@,
                                self@,
                                externals_model(externals@),
                            );
                            lemma_graph_emit_error(
                                self@,
                                i as int + 1,
                                self@.len() as int,
                                tracker@,
                                externals_model(externals@),
                            );
                        }
                        return Err(e);
                    },
                }
                proof {
                    assert(fields_emit(
                        fm,
                        j as int + 1,
                        prefix.len() as int,
                        tracker@,
                        self@,
                        externals_model(externals@),
                    ) matches Ok(seg) && out@ =~= prefix + seg);
                }
                j += 1;
            }
            i += 1;
        }
        Ok(out)
    }

    /// Runs the two-pass build without external blobs: sizes every sector,
    /// then emits every field in insertion order into a fresh byte buffer.
    pub fn build(self) -> (r: Result<Vec<u8>, SerialError<S>>)
        requires
            key_model::<S>(),
            self.wf(),
        ensures
            match r {
                Result::Ok(out) => build_model(self@, Seq::<(Seq<char>, Seq<u8>)>::empty()) == Ok::<
                    Seq<u8>,
                    ErrorModel<S>,
                >(out@),
                Result::Err(e) => build_model(self@, Seq::<(Seq<char>, Seq<u8>)>::empty()) == Err::<
                    Seq<u8>,
                    ErrorModel<S>,
                >(e@),
            },
    {
        let externals: Vec<ExternalData> = Vec::new();
        proof {
            assert(externals_model(externals@) =~= Seq::<(Seq<char>, Seq<u8>)>::empty());
        }
        self.build_with_externals(&externals)
    }

    /// Inserts an empty sector under a key: a named position in the layout.
    pub fn sector_default(self, key: S) -> (r: Self)
        requires
            key_model::<S>(),
            self.wf(),
        ensures
            r@ == if graph_contains(self@, key) {
                self@.update(graph_index_of(self@, key), (key, Seq::<FieldModel<S>>::empty()))
            } else {
                self@.push((key, Seq::<FieldModel<S>>::empty()))
            },
            r.wf(),
    {
        self.sector(key, SerialSectorBuilder::<S>::default())
    }
}

/// The data for one external blob, keyed by the path its field declared.
#[derive(Debug, Clone)]
pub struct ExternalData {
    pub path: String,
    pub data: Vec<u8>,
}

impl View for ExternalData {
    type V = (Seq<char>, Seq<u8>);

    open spec fn view(&self) -> (Seq<char>, Seq<u8>) {
        (self.path@, self.data@)
    }
}

/// The supplied external blobs as the emission model sees them.
pub open spec fn externals_model(externals: Seq<ExternalData>) -> Seq<(Seq<char>, Seq<u8>)> {
    externals.map_values(|d: ExternalData| d@)
}

} // verus!
