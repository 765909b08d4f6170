//! The raw binary form of a font pack: a header with the magic, a pointer to
//! the metadata and one to each font, the metadata pointer table with its
//! strings, and per font a header, a width table, a bitmap pointer table and
//! the glyph bitmaps themselves.

use std::collections::HashMap;

use vstd::prelude::*;

use crate::builder::{SerialBuilder, SerialSectorBuilder};
use crate::font::definition::FontDefinition;
use crate::font::output::{font_pack_header, get_fonts_length, FontLimitError};
use crate::font::FontGlyphs;
use crate::font::definition::FontPackDefinition;
use crate::key_model;
use crate::model::{FieldModel, GraphModel};

verus! {

broadcast use vstd::std_specs::hash::group_hash_axioms;

/// The sectors a font pack is laid out in.
#[derive(Debug, Eq, Hash)]
pub enum SectorId {
    /// The pack magic, the metadata pointer, the font count and one pointer
    /// per font.
    Header,
    /// The pointer table of the metadata strings.
    Metadata,
    /// The end of the metadata pointer table, pointed at to carry its length.
    MetadataEnd,
    /// The metadata strings themselves.
    MetadataStrings,
    /// One font's metrics and table pointers.
    FontHeader(usize),
    /// One font's glyph width table.
    FontGlyphWidths(usize),
    /// One font's table of glyph bitmap pointers.
    FontGlyphBitmaps(usize),
    /// One glyph's bitmap in one font.
    FontGlyphBitmap(usize, u8),
}

impl PartialEq for SectorId {
    fn eq(&self, other: &Self) -> (r: bool)
        ensures
            r == (*self == *other),
    {
        match (self, other) {
            (SectorId::Header, SectorId::Header) => true,
            (SectorId::Metadata, SectorId::Metadata) => true,
            (SectorId::MetadataEnd, SectorId::MetadataEnd) => true,
            (SectorId::MetadataStrings, SectorId::MetadataStrings) => true,
            (SectorId::FontHeader(a), SectorId::FontHeader(b)) => a == b,
            (SectorId::FontGlyphWidths(a), SectorId::FontGlyphWidths(b)) => a == b,
            (SectorId::FontGlyphBitmaps(a), SectorId::FontGlyphBitmaps(b)) => a == b,
            (SectorId::FontGlyphBitmap(a, c), SectorId::FontGlyphBitmap(b, d)) => a == b && c == d,
            _ => false,
        }
    }
}

impl vstd::std_specs::cmp::PartialEqSpecImpl for SectorId {
    open spec fn obeys_eq_spec() -> bool {
        true
    }

    open spec fn eq_spec(&self, other: &Self) -> bool {
        *self == *other
    }
}

impl Clone for SectorId {
    fn clone(&self) -> (r: Self)
        ensures
            r == *self,
    {
        match self {
            SectorId::Header => SectorId::Header,
            SectorId::Metadata => SectorId::Metadata,
            SectorId::MetadataEnd => SectorId::MetadataEnd,
            SectorId::MetadataStrings => SectorId::MetadataStrings,
            SectorId::FontHeader(a) => SectorId::FontHeader(*a),
            SectorId::FontGlyphWidths(a) => SectorId::FontGlyphWidths(*a),
            SectorId::FontGlyphBitmaps(a) => SectorId::FontGlyphBitmaps(*a),
            SectorId::FontGlyphBitmap(a, b) => SectorId::FontGlyphBitmap(*a, *b),
        }
    }
}

/// Sector keys behave as values: equality is structural and clones are
/// equal, so the layout may look them up.
pub proof fn lemma_sector_id_key_model()
    ensures
        key_model::<SectorId>(),
{
    assert forall|x: SectorId, y: SectorId| #[trigger]
        vstd::pervasive::cloned(x, y) implies y == x by {
        if vstd::pervasive::strictly_cloned(x, y) {
            assert(call_ensures(<SectorId as Clone>::clone, (&x,), y));
        }
    }
}

/// The wire order of one font's header sector: version, height, glyph count
/// and first glyph, the pointers to the width and bitmap tables, then the
/// remaining metrics, the weight byte (zero when unset) and the style byte.
pub open spec fn spec_font_header_fields(
    font: FontDefinition,
    font_index: usize,
    glyph_count: u8,
    first_glyph: u8,
) -> Seq<FieldModel<SectorId>> {
    seq![
        FieldModel::U8(font.version),
        FieldModel::U8(font.height),
        FieldModel::U8(glyph_count),
        FieldModel::U8(first_glyph),
        FieldModel::Dynamic {
            origin: SectorId::FontHeader(font_index),
            sector: SectorId::FontGlyphWidths(font_index),
            index: 0,
            scale: 1,
            rounding: crate::rounding::Rounding::Floor,
            bytes: 2,
        },
        FieldModel::Dynamic {
            origin: SectorId::FontHeader(font_index),
            sector: SectorId::FontGlyphBitmaps(font_index),
            index: 0,
            scale: 1,
            rounding: crate::rounding::Rounding::Floor,
            bytes: 2,
        },
        FieldModel::U8(font.italic_space_adjust),
        FieldModel::U8(font.space_above),
        FieldModel::U8(font.space_below),
        FieldModel::U8(
            match font.weight {
                Option::Some(w) => crate::font::definition::spec_weight_value(w),
                Option::None => 0,
            },
        ),
        FieldModel::U8(crate::font::definition::spec_style_bits(font.style)),
        FieldModel::U8(font.cap_height),
        FieldModel::U8(font.x_height),
        FieldModel::U8(font.baseline_height),
    ]
}

/// Builds one font's header sector, field for field in wire order.
pub fn font_header_sector(
    font: &FontDefinition,
    font_index: usize,
    glyph_count: u8,
    first_glyph: u8,
) -> (r: SerialSectorBuilder<SectorId>)
    ensures
        r@ == spec_font_header_fields(*font, font_index, glyph_count, first_glyph),
        r.wf(),
{
    let weight_value: u8 = match font.weight {
        Option::Some(w) => u8::from(w),
        Option::None => 0,
    };
    let r = SerialSectorBuilder::<SectorId>::default().u8(font.version).u8(font.height).u8(
        glyph_count,
    ).u8(first_glyph).dynamic_u16(
        SectorId::FontHeader(font_index),
        SectorId::FontGlyphWidths(font_index),
        0,
    ).dynamic_u16(
        SectorId::FontHeader(font_index),
        SectorId::FontGlyphBitmaps(font_index),
        0,
    ).u8(font.italic_space_adjust).u8(font.space_above).u8(font.space_below).u8(
        weight_value,
    ).u8(u8::from(font.style)).u8(font.cap_height).u8(font.x_height).u8(font.baseline_height);
    proof {
        assert(r@ =~= spec_font_header_fields(*font, font_index, glyph_count, first_glyph));
    }
    r
}

/// The width-table entry for one code-page position: the glyph's width, or
/// zero where no glyph is recorded.
pub open spec fn spec_width_field(
    glyphs: Map<u8, (Vec<u8>, u8)>,
    position: u8,
) -> FieldModel<SectorId> {
    if glyphs.contains_key(position) {
        FieldModel::U8(glyphs[position].1)
    } else {
        FieldModel::U8(0)
    }
}

/// The bitmap-table entry for one code-page position: a pointer to the
/// glyph's bitmap sector, or a null pointer where no glyph is recorded.
pub open spec fn spec_bitmap_pointer_field(
    glyphs: Map<u8, (Vec<u8>, u8)>,
    font_index: usize,
    position: u8,
) -> FieldModel<SectorId> {
    if glyphs.contains_key(position) {
        FieldModel::Dynamic {
            origin: SectorId::FontHeader(font_index),
            sector: SectorId::FontGlyphBitmap(font_index, position),
            index: 0,
            scale: 1,
            rounding: crate::rounding::Rounding::Floor,
            bytes: 2,
        }
    } else {
        FieldModel::U16(0)
    }
}

/// Builds one font's width table and bitmap pointer table, one entry per
/// code-page position from the first through the last glyph, and gathers the
/// recorded bitmaps with their positions in ascending order.
pub fn glyph_table_sectors(
    font_index: usize,
    first_glyph: u8,
    last_glyph: u8,
    glyphs: HashMap<u8, (Vec<u8>, u8)>,
) -> (r: (SerialSectorBuilder<SectorId>, SerialSectorBuilder<SectorId>, Vec<(Vec<u8>, u8)>))
    requires
        first_glyph <= last_glyph,
    ensures
        r.0@ == Seq::new(
            (last_glyph - first_glyph + 1) as nat,
            |i: int| spec_width_field(glyphs@, (first_glyph + i) as u8),
        ),
        r.1@ == Seq::new(
            (last_glyph - first_glyph + 1) as nat,
            |i: int| spec_bitmap_pointer_field(glyphs@, font_index, (first_glyph + i) as u8),
        ),
        r.0.wf(),
        r.1.wf(),
        forall|i: int|
            0 <= i < r.2@.len() ==> {
                let pair = #[trigger] r.2@[i];
                &&& glyphs@.contains_key(pair.1)
                &&& pair.0@ == glyphs@[pair.1].0@
                &&& first_glyph <= pair.1 <= last_glyph
            },
        forall|i: int, j: int| 0 <= i < j < r.2@.len() ==> r.2@[i].1 < r.2@[j].1,
{
    let ghost recorded = glyphs@;
    let mut widths_builder = SerialSectorBuilder::<SectorId>::default();
    let mut bitmap_table_builder = SerialSectorBuilder::<SectorId>::default();
    let mut glyph_bitmaps: Vec<(Vec<u8>, u8)> = Vec::new();
    let mut glyphs = glyphs;

    let span: usize = (last_glyph - first_glyph) as usize + 1;
    let mut step: usize = 0;
    while step < span
        invariant
            span == last_glyph - first_glyph + 1,
            0 <= step <= span,
            widths_builder.wf(),
            bitmap_table_builder.wf(),
            widths_builder@ == Seq::new(
                step as nat,
                |i: int| spec_width_field(recorded, (first_glyph + i) as u8),
            ),
            bitmap_table_builder@ == Seq::new(
                step as nat,
                |i: int| spec_bitmap_pointer_field(recorded, font_index, (first_glyph + i) as u8),
            ),
            forall|k: u8|
                first_glyph + step <= k ==> (#[trigger] glyphs@.contains_key(k))
                    == recorded.contains_key(k) && (recorded.contains_key(k) ==> glyphs@[k]
                    == recorded[k]),
            forall|i: int|
                0 <= i < glyph_bitmaps@.len() ==> {
                    let pair = #[trigger] glyph_bitmaps@[i];
                    &&& recorded.contains_key(pair.1)
                    &&& pair.0@ == recorded[pair.1].0@
                    &&& first_glyph <= pair.1 < first_glyph + step
                },
            forall|i: int, j: int|
                0 <= i < j < glyph_bitmaps@.len() ==> glyph_bitmaps@[i].1 < glyph_bitmaps@[j].1,
        decreases span - step,
    {
        let glyph_index: u8 = first_glyph + (step as u8);
        let ghost widths_pre = widths_builder@;
        let ghost table_pre = bitmap_table_builder@;
        match glyphs.remove(&glyph_index) {
            Option::Some((glyph_bitmap, glyph_width)) => {
                widths_builder = widths_builder.u8(glyph_width);
                bitmap_table_builder = bitmap_table_builder.dynamic_u16(
                    SectorId::FontHeader(font_index),
                    SectorId::FontGlyphBitmap(font_index, glyph_index),
                    0,
                );
                glyph_bitmaps.push((glyph_bitmap, glyph_index));
            },
            Option::None => {
                // A position with no bitmap still takes a table slot.
                widths_builder = widths_builder.u8(0);
                bitmap_table_builder = bitmap_table_builder.null_16();
            },
        }
        proof {
            assert(widths_builder@ =~= Seq::new(
                step as nat + 1,
                |i: int| spec_width_field(recorded, (first_glyph + i) as u8),
            ));
            assert(bitmap_table_builder@ =~= Seq::new(
                step as nat + 1,
                |i: int| spec_bitmap_pointer_field(recorded, font_index, (first_glyph + i) as u8),
            ));
        }
        step += 1;
    }
    (widths_builder, bitmap_table_builder, glyph_bitmaps)
}

/// Whether a key belongs to any sector of the given font.
pub open spec fn spec_key_of_font(key: SectorId, font_index: usize) -> bool {
    match key {
        SectorId::FontHeader(f) => f == font_index,
        SectorId::FontGlyphWidths(f) => f == font_index,
        SectorId::FontGlyphBitmaps(f) => f == font_index,
        SectorId::FontGlyphBitmap(f, _) => f == font_index,
        _ => false,
    }
}

/// Whether a graph holds no sector of the given font yet, so the font's
/// sectors will all be appended rather than replace anything.
pub open spec fn spec_font_keys_fresh(graph: GraphModel<SectorId>, font_index: usize) -> bool {
    forall|i: int|
        0 <= i < graph.len() ==> !spec_key_of_font(#[trigger] graph[i].0, font_index)
}

/// The one-byte count of code-page positions a font covers, clamped one
/// short of a full page.
pub open spec fn spec_glyph_count(first_glyph: u8, last_glyph: u8) -> u8 {
    if last_glyph - first_glyph < 255 {
        (last_glyph - first_glyph + 1) as u8
    } else {
        255u8
    }
}

/// One glyph bitmap as its own sector.
pub open spec fn spec_bitmap_sector(font_index: usize, pair: (Vec<u8>, u8)) -> (
    SectorId,
    Seq<FieldModel<SectorId>>,
) {
    (SectorId::FontGlyphBitmap(font_index, pair.1), seq![FieldModel::Bytes(pair.0@)])
}

/// Whether a graph entry is one recorded glyph bitmap of the given font: its
/// key names the font and a position in range, and its single field holds
/// exactly the recorded bytes.
pub open spec fn spec_is_font_bitmap_sector(
    entry: (SectorId, Seq<FieldModel<SectorId>>),
    font_index: usize,
    recorded: Map<u8, (Vec<u8>, u8)>,
    first_glyph: u8,
    last_glyph: u8,
) -> bool {
    entry matches (SectorId::FontGlyphBitmap(f, g), fields) && f == font_index && first_glyph <= g
        <= last_glyph && recorded.contains_key(g) && fields == seq![
        FieldModel::<SectorId>::Bytes(recorded[g].0@),
    ]
}

/// Adds one font's sectors: its header, its width table, its bitmap pointer
/// table, and one sector per recorded glyph bitmap. Positions in the code
/// page between the font's first and last glyph that have no bitmap get a
/// zero width and a null bitmap pointer. When none of the font's keys are
/// present yet, the result is exactly the given graph followed by the
/// header, the two tables, and the recorded bitmaps in ascending code-page
/// order.
pub fn add_font_sectors(
    builder: SerialBuilder<SectorId>,
    font: FontDefinition,
    font_index: usize,
    font_glyphs: FontGlyphs,
) -> (r: Result<SerialBuilder<SectorId>, FontLimitError>)
    requires
        builder.wf(),
        font_glyphs.first_glyph <= font_glyphs.last_glyph,
    ensures
        r matches Ok(b) && b.wf(),
        ({
            let first = font_glyphs.first_glyph;
            let last = font_glyphs.last_glyph;
            let recorded = font_glyphs.glyphs@;
            let b = match r {
                Result::Ok(b) => b,
                Result::Err(_) => builder,
            };
            spec_font_keys_fresh(builder@, font_index) ==> {
                &&& b@.len() >= builder@.len() + 3
                &&& b@.take(builder@.len() as int) == builder@
                &&& b@[builder@.len() as int] == (
                    SectorId::FontHeader(font_index),
                    spec_font_header_fields(
                        font,
                        font_index,
                        spec_glyph_count(first, last),
                        first,
                    ),
                )
                &&& b@[builder@.len() as int + 1] == (
                    SectorId::FontGlyphWidths(font_index),
                    Seq::new(
                        (last - first + 1) as nat,
                        |i: int| spec_width_field(recorded, (first + i) as u8),
                    ),
                )
                &&& b@[builder@.len() as int + 2] == (
                    SectorId::FontGlyphBitmaps(font_index),
                    Seq::new(
                        (last - first + 1) as nat,
                        |i: int| spec_bitmap_pointer_field(recorded, font_index, (first + i) as u8),
                    ),
                )
            }
        }),
        r matches Ok(b) ==> (spec_font_keys_fresh(builder@, font_index) ==> forall|k: int|
            builder@.len() as int + 3 <= k < b@.len() ==> spec_is_font_bitmap_sector(
                #[trigger] b@[k],
                font_index,
                font_glyphs.glyphs@,
                font_glyphs.first_glyph,
                font_glyphs.last_glyph,
            )),
{
    proof {
        lemma_sector_id_key_model();
    }
    let ghost base0 = builder@;
    let ghost fresh = spec_font_keys_fresh(base0, font_index);
    let first_glyph = font_glyphs.first_glyph;
    let last_glyph = font_glyphs.last_glyph;
    let ghost recorded = font_glyphs.glyphs@;
    let glyph_count = font_glyphs.glyph_count();
    let tables = glyph_table_sectors(font_index, first_glyph, last_glyph, font_glyphs.glyphs);
    let (widths_builder, bitmap_table_builder, mut glyph_bitmaps) = tables;
    let ghost pairs = glyph_bitmaps@;

    let header_builder = font_header_sector(&font, font_index, glyph_count, first_glyph);
    proof {
        if fresh {
            assert forall|i: int|
                0 <= i < base0.len() implies base0[i].0 != SectorId::FontHeader(font_index) by {
                assert(!spec_key_of_font(base0[i].0, font_index));
            }
            crate::model::lemma_graph_index_of_absent(base0, SectorId::FontHeader(font_index));
        }
    }
    let builder = builder.sector(SectorId::FontHeader(font_index), header_builder);
    proof {
        if fresh {
            assert forall|i: int|
                0 <= i < builder@.len() implies builder@[i].0 != SectorId::FontGlyphWidths(
                font_index,
            ) by {
                if i < base0.len() {
                    assert(!spec_key_of_font(base0[i].0, font_index));
                    assert(builder@[i] == base0[i]);
                }
            }
            crate::model::lemma_graph_index_of_absent(
                builder@,
                SectorId::FontGlyphWidths(font_index),
            );
        }
    }
    let builder = builder.sector(SectorId::FontGlyphWidths(font_index), widths_builder);
    proof {
        if fresh {
            assert forall|i: int|
                0 <= i < builder@.len() implies builder@[i].0 != SectorId::FontGlyphBitmaps(
                font_index,
            ) by {
                if i < base0.len() {
                    assert(!spec_key_of_font(base0[i].0, font_index));
                    assert(builder@[i] == base0[i]);
                }
            }
            crate::model::lemma_graph_index_of_absent(
                builder@,
                SectorId::FontGlyphBitmaps(font_index),
            );
        }
    }
    let mut builder = builder.sector(SectorId::FontGlyphBitmaps(font_index), bitmap_table_builder);
    let ghost base3 = builder@;
    proof {
        if fresh {
            assert(builder@ =~= base3 + pairs.take(0).map_values(
                |p: (Vec<u8>, u8)| spec_bitmap_sector(font_index, p),
            ));
        }
    }

    while glyph_bitmaps.len() > 0
        invariant
            builder.wf(),
            fresh == spec_font_keys_fresh(base0, font_index),
            glyph_bitmaps@ == pairs.skip(pairs.len() - glyph_bitmaps@.len()),
            glyph_bitmaps@.len() <= pairs.len(),
            forall|x: int, y: int| 0 <= x < y < pairs.len() ==> pairs[x].1 < pairs[y].1,
            fresh ==> base3.len() == base0.len() + 3 && base3.take(base0.len() as int) == base0
                && base3[base0.len() as int].0 == SectorId::FontHeader(font_index)
                && base3[base0.len() as int + 1].0 == SectorId::FontGlyphWidths(font_index)
                && base3[base0.len() as int + 2].0 == SectorId::FontGlyphBitmaps(font_index),
            fresh ==> builder@ == base3 + pairs.take(pairs.len() - glyph_bitmaps@.len()).map_values(
                |p: (Vec<u8>, u8)| spec_bitmap_sector(font_index, p),
            ),
        decreases glyph_bitmaps.len(),
    {
        let ghost done = pairs.len() - glyph_bitmaps@.len();
        let (glyph_bitmap, glyph_index) = glyph_bitmaps.remove(0);
        proof {
            assert((glyph_bitmap, glyph_index) == pairs[done]);
            assert(glyph_bitmaps@ =~= pairs.skip(done + 1));
            if fresh {
                assert forall|i: int|
                    0 <= i < builder@.len() implies builder@[i].0 != SectorId::FontGlyphBitmap(
                    font_index,
                    glyph_index,
                ) by {
                    assert(builder@.len() == base3.len() + done);
                    if i < base0.len() {
                        assert(builder@[i] == base3[i]);
                        assert(base3[i] == base3.take(base0.len() as int)[i]);
                        assert(!spec_key_of_font(base0[i].0, font_index));
                    } else if i >= base3.len() {
                        let w = i - base3.len() as int;
                        assert(0 <= w < done < pairs.len());
                        assert(builder@[i] == pairs.take(done).map_values(
                            |p: (Vec<u8>, u8)| spec_bitmap_sector(font_index, p),
                        )[w]);
                        assert(builder@[i].0 == SectorId::FontGlyphBitmap(
                            font_index,
                            pairs[w].1,
                        ));
                        assert(pairs[w].1 < pairs[done].1);
                    }
                }
                crate::model::lemma_graph_index_of_absent(
                    builder@,
                    SectorId::FontGlyphBitmap(font_index, glyph_index),
                );
            }
        }
        builder = builder.sector(
            SectorId::FontGlyphBitmap(font_index, glyph_index),
            SerialSectorBuilder::<SectorId>::default().bytes(glyph_bitmap),
        );
        proof {
            if fresh {
                assert(builder@ =~= base3 + pairs.take(done + 1).map_values(
                    |p: (Vec<u8>, u8)| spec_bitmap_sector(font_index, p),
                ));
            }
        }
    }
    proof {
        if fresh {
            assert(pairs.take(pairs.len() as int) =~= pairs);
            assert(builder@.take(base0.len() as int) =~= base0);
            assert forall|k: int|
                base0.len() + 3 <= k < builder@.len() implies spec_is_font_bitmap_sector(
                #[trigger] builder@[k],
                font_index,
                recorded,
                first_glyph,
                last_glyph,
            ) by {
                let p = pairs[k - base3.len()];
                assert(builder@[k] == spec_bitmap_sector(font_index, p));
            }
        }
    }

    Ok(builder)
}

/// The wire order of the pack header sector: the magic, the pointer to the
/// metadata, the clamped font count, then one pointer per font.
pub open spec fn spec_pack_header_fields(count_byte: u8, n_fonts: int) -> Seq<
    FieldModel<SectorId>,
> {
    seq![
        FieldModel::Bytes(crate::font::output::spec_font_pack_header()),
        FieldModel::Dynamic {
            origin: SectorId::Header,
            sector: SectorId::Metadata,
            index: 0,
            scale: 1,
            rounding: crate::rounding::Rounding::Floor,
            bytes: 3,
        },
        FieldModel::U8(count_byte),
    ] + Seq::new(
        n_fonts as nat,
        |i: int|
            FieldModel::Dynamic {
                origin: SectorId::Header,
                sector: SectorId::FontHeader(i as usize),
                index: 0,
                scale: 1,
                rounding: crate::rounding::Rounding::Floor,
                bytes: 3,
            },
    )
}

/// Builds the pack header sector, field for field in wire order.
pub fn pack_header_sector(count_byte: u8, n_fonts: usize) -> (r: SerialSectorBuilder<SectorId>)
    ensures
        r@ == spec_pack_header_fields(count_byte, n_fonts as int),
        r.wf(),
{
    let mut header_builder = SerialSectorBuilder::<SectorId>::default().bytes(
        font_pack_header(),
    ).dynamic_u24(SectorId::Header, SectorId::Metadata, 0).u8(count_byte);
    proof {
        assert(header_builder@ =~= spec_pack_header_fields(count_byte, 0));
    }
    let mut i: usize = 0;
    while i < n_fonts
        invariant
            0 <= i <= n_fonts,
            header_builder.wf(),
            header_builder@ == spec_pack_header_fields(count_byte, i as int),
        decreases n_fonts - i,
    {
        header_builder = header_builder.dynamic_u24(SectorId::Header, SectorId::FontHeader(i), 0);
        proof {
            assert(header_builder@ =~= spec_pack_header_fields(count_byte, i as int + 1));
        }
        i += 1;
    }
    header_builder
}

/// Whether a metadata string takes a slot in the string sector: it must be
/// present and not empty.
pub open spec fn spec_metadata_present(text: Option<String>) -> bool {
    match text {
        Option::Some(t) => t@.len() > 0,
        Option::None => false,
    }
}

/// The metadata table entry for one string: a pointer to its slot in the
/// string sector, or a three-byte null where there is no string.
pub open spec fn spec_metadata_entry(text: Option<String>, string_index: usize) -> FieldModel<
    SectorId,
> {
    if spec_metadata_present(text) {
        FieldModel::Dynamic {
            origin: SectorId::Header,
            sector: SectorId::MetadataStrings,
            index: string_index,
            scale: 1,
            rounding: crate::rounding::Rounding::Floor,
            bytes: 3,
        }
    } else {
        FieldModel::U24(0)
    }
}

/// The UTF-8 bytes a present metadata string contributes.
pub open spec fn spec_metadata_bytes(text: Option<String>) -> Seq<u8> {
    match text {
        Option::Some(t) => vstd::utf8::encode_utf8(t@),
        Option::None => Seq::empty(),
    }
}

/// Adds one metadata string: an absent or empty string becomes a null
/// pointer; any other becomes a pointer into the string sector and the
/// string itself, advancing the running string index.
fn add_metadata_string(
    metadata_builder: SerialSectorBuilder<SectorId>,
    string_builder: SerialSectorBuilder<SectorId>,
    string_index: usize,
    text: &Option<String>,
) -> (r: (SerialSectorBuilder<SectorId>, SerialSectorBuilder<SectorId>, usize))
    requires
        metadata_builder.wf(),
        string_builder.wf(),
        string_index < 100,
    ensures
        r.0.wf(),
        r.1.wf(),
        r.0@ == metadata_builder@.push(spec_metadata_entry(*text, string_index)),
        r.1@ == if spec_metadata_present(*text) {
            string_builder@.push(FieldModel::String(spec_metadata_bytes(*text)))
        } else {
            string_builder@
        },
        r.2 == string_index + if spec_metadata_present(*text) {
            1int
        } else {
            0int
        },
{
    match text {
        Option::Some(text) => {
            if text.as_str().is_empty() {
                (metadata_builder.null_24(), string_builder, string_index)
            } else {
                (
                    metadata_builder.dynamic_u24(
                        SectorId::Header,
                        SectorId::MetadataStrings,
                        string_index,
                    ),
                    string_builder.string(text.as_str()),
                    string_index + 1,
                )
            }
        },
        Option::None => (metadata_builder.null_24(), string_builder, string_index),
    }
}

/// The metadata pointer-table sector in wire order: a pointer to the
/// table's own end, then one entry per descriptive string, each a pointer
/// into the string sector or a three-byte null.
pub open spec fn spec_metadata_fields(
    m: crate::font::definition::FontPackMetadata,
) -> Seq<FieldModel<SectorId>> {
    let i1 = if spec_metadata_present(m.family_name) {
        1int
    } else {
        0int
    };
    let i2 = i1 + if spec_metadata_present(m.author) {
        1int
    } else {
        0int
    };
    let i3 = i2 + if spec_metadata_present(m.pseudocopyright) {
        1int
    } else {
        0int
    };
    let i4 = i3 + if spec_metadata_present(m.description) {
        1int
    } else {
        0int
    };
    let i5 = i4 + if spec_metadata_present(m.version) {
        1int
    } else {
        0int
    };
    seq![
        FieldModel::Dynamic {
            origin: SectorId::Metadata,
            sector: SectorId::MetadataEnd,
            index: 0,
            scale: 1,
            rounding: crate::rounding::Rounding::Floor,
            bytes: 3,
        },
        spec_metadata_entry(m.family_name, 0),
        spec_metadata_entry(m.author, i1 as usize),
        spec_metadata_entry(m.pseudocopyright, i2 as usize),
        spec_metadata_entry(m.description, i3 as usize),
        spec_metadata_entry(m.version, i4 as usize),
        spec_metadata_entry(m.code_page, i5 as usize),
    ]
}

/// The string sector in wire order: every present metadata string in table
/// order, each null-terminated on the wire.
pub open spec fn spec_metadata_strings(
    m: crate::font::definition::FontPackMetadata,
) -> Seq<FieldModel<SectorId>> {
    let s0 = Seq::<FieldModel<SectorId>>::empty();
    let s1 = if spec_metadata_present(m.family_name) {
        s0.push(FieldModel::String(spec_metadata_bytes(m.family_name)))
    } else {
        s0
    };
    let s2 = if spec_metadata_present(m.author) {
        s1.push(FieldModel::String(spec_metadata_bytes(m.author)))
    } else {
        s1
    };
    let s3 = if spec_metadata_present(m.pseudocopyright) {
        s2.push(FieldModel::String(spec_metadata_bytes(m.pseudocopyright)))
    } else {
        s2
    };
    let s4 = if spec_metadata_present(m.description) {
        s3.push(FieldModel::String(spec_metadata_bytes(m.description)))
    } else {
        s3
    };
    let s5 = if spec_metadata_present(m.version) {
        s4.push(FieldModel::String(spec_metadata_bytes(m.version)))
    } else {
        s4
    };
    if spec_metadata_present(m.code_page) {
        s5.push(FieldModel::String(spec_metadata_bytes(m.code_page)))
    } else {
        s5
    }
}

/// The one-byte font count stored in the pack header: a full pack of 127 is
/// stored as zero.
pub open spec fn spec_fonts_count_byte(n_fonts: int) -> u8 {
    if n_fonts < 127 {
        n_fonts as u8
    } else {
        0u8
    }
}

/// Lays the whole pack out as sectors: the header with the magic, the
/// metadata pointer and the font count and pointers; the metadata pointer
/// table with its end marker and strings; then every font's sectors. Fails
/// exactly when the pack holds no font or more than the format can carry.
pub fn generate_serial_builder(
    pack: FontPackDefinition,
    fonts: Vec<(FontDefinition, FontGlyphs)>,
) -> (r: Result<SerialBuilder<SectorId>, FontLimitError>)
    requires
        forall|i: int|
            0 <= i < fonts@.len() ==> (#[trigger] fonts@[i].1).first_glyph
                <= fonts@[i].1.last_glyph,
    ensures
        fonts@.len() == 0 ==> r == Err::<SerialBuilder<SectorId>, FontLimitError>(
            FontLimitError::Empty,
        ),
        fonts@.len() > crate::font::output::MAX_FONTS_LENGTH ==> r == Err::<
            SerialBuilder<SectorId>,
            FontLimitError,
        >(FontLimitError::TooMany { count: fonts@.len() as usize }),
        1 <= fonts@.len() <= crate::font::output::MAX_FONTS_LENGTH ==> r is Ok,
        r matches Ok(b) ==> {
            &&& b.wf()
            &&& b@.len() >= 4
            &&& b@[0] == (
                SectorId::Header,
                spec_pack_header_fields(
                    spec_fonts_count_byte(fonts@.len() as int),
                    fonts@.len() as int,
                ),
            )
            &&& b@[1] == (SectorId::Metadata, spec_metadata_fields(pack.metadata))
            &&& b@[2] == (SectorId::MetadataEnd, Seq::<FieldModel<SectorId>>::empty())
            &&& b@[3] == (SectorId::MetadataStrings, spec_metadata_strings(pack.metadata))
        },
{
    proof {
        lemma_sector_id_key_model();
    }
    let ghost n0 = fonts@.len();
    let fonts_length = match get_fonts_length(fonts.len()) {
        Result::Ok(v) => v,
        Result::Err(e) => {
            return Err(e);
        },
    };
    proof {
        assert(fonts_length == spec_fonts_count_byte(n0 as int));
    }

    // Pack header: magic, metadata pointer, font count, one pointer per
    // font.
    let header_builder = pack_header_sector(fonts_length, fonts.len());

    // Pack metadata: a pointer to the table's end, then one pointer per
    // string, null where the string is absent.
    let metadata_builder = SerialSectorBuilder::<SectorId>::default().dynamic_u24(
        SectorId::Metadata,
        SectorId::MetadataEnd,
        0,
    );
    let string_builder = SerialSectorBuilder::<SectorId>::default();
    let metadata = pack.metadata;
    let entries = add_metadata_string(metadata_builder, string_builder, 0, &metadata.family_name);
    let entries = add_metadata_string(entries.0, entries.1, entries.2, &metadata.author);
    let entries = add_metadata_string(entries.0, entries.1, entries.2, &metadata.pseudocopyright);
    let entries = add_metadata_string(entries.0, entries.1, entries.2, &metadata.description);
    let entries = add_metadata_string(entries.0, entries.1, entries.2, &metadata.version);
    let entries = add_metadata_string(entries.0, entries.1, entries.2, &metadata.code_page);
    let (metadata_builder, string_builder, _string_index) = entries;
    proof {
        assert(metadata_builder@ =~= spec_metadata_fields(pack.metadata));
        assert(string_builder@ =~= spec_metadata_strings(pack.metadata));
    }

    let b0 = SerialBuilder::<SectorId>::default();
    let b1 = b0.sector(SectorId::Header, header_builder);
    proof {
        crate::model::lemma_graph_index_of_absent(b0@, SectorId::Header);
    }
    let b2 = b1.sector(SectorId::Metadata, metadata_builder);
    proof {
        assert(b1@.len() == 1);
        crate::model::lemma_graph_index_of_absent(b1@, SectorId::Metadata);
    }
    let b3 = b2.sector_default(SectorId::MetadataEnd);
    proof {
        assert(b2@.len() == 2);
        crate::model::lemma_graph_index_of_absent(b2@, SectorId::MetadataEnd);
    }
    let mut builder = b3.sector(SectorId::MetadataStrings, string_builder);
    proof {
        assert(b3@.len() == 3);
        crate::model::lemma_graph_index_of_absent(b3@, SectorId::MetadataStrings);
    }
    let ghost base = builder@;
    proof {
        assert(base.len() == 4);
        assert(base[0] == (
            SectorId::Header,
            spec_pack_header_fields(spec_fonts_count_byte(n0 as int), n0 as int),
        ));
        assert(base[1] == (SectorId::Metadata, spec_metadata_fields(pack.metadata)));
        assert(base[2] == (SectorId::MetadataEnd, Seq::<FieldModel<SectorId>>::empty()));
        assert(base[3] == (SectorId::MetadataStrings, spec_metadata_strings(pack.metadata)));
        assert forall|f: usize| spec_font_keys_fresh(base, f) by {
            assert forall|i: int|
                0 <= i < base.len() implies !spec_key_of_font(#[trigger] base[i].0, f) by {
                if i == 0 {
                    assert(base[i].0 == SectorId::Header);
                } else if i == 1 {
                    assert(base[i].0 == SectorId::Metadata);
                } else if i == 2 {
                    assert(base[i].0 == SectorId::MetadataEnd);
                } else {
                    assert(base[i].0 == SectorId::MetadataStrings);
                }
            }
        }
    }

    // Every font's sectors, in order.
    let mut fonts = fonts;
    let mut font_index: usize = 0;
    while fonts.len() > 0
        invariant
            builder.wf(),
            font_index + fonts@.len() == n0,
            n0 <= 127,
            builder@.len() >= 4,
            builder@.take(4) == base,
            base.len() == 4,
            base[0] == (
                SectorId::Header,
                spec_pack_header_fields(spec_fonts_count_byte(n0 as int), n0 as int),
            ),
            base[1] == (SectorId::Metadata, spec_metadata_fields(pack.metadata)),
            base[2] == (SectorId::MetadataEnd, Seq::<FieldModel<SectorId>>::empty()),
            base[3] == (SectorId::MetadataStrings, spec_metadata_strings(pack.metadata)),
            forall|f: usize| font_index <= f ==> #[trigger] spec_font_keys_fresh(builder@, f),
            forall|k: int|
                0 <= k < fonts@.len() ==> (#[trigger] fonts@[k].1).first_glyph
                    <= fonts@[k].1.last_glyph,
        decreases fonts.len(),
    {
        let ghost pre = builder@;
        let (font, font_glyphs) = fonts.remove(0);
        builder = match add_font_sectors(builder, font, font_index, font_glyphs) {
            Result::Ok(b) => b,
            Result::Err(e) => {
                return Err(e);
            },
        };
        proof {
            assert(spec_font_keys_fresh(pre, font_index));
            assert(builder@.take(4) =~= base);
            assert forall|f: usize|
                font_index + 1 <= f implies #[trigger] spec_font_keys_fresh(builder@, f) by {
                assert forall|i: int|
                    0 <= i < builder@.len() implies !spec_key_of_font(
                    #[trigger] builder@[i].0,
                    f,
                ) by {
                    if i < pre.len() {
                        assert(builder@[i] == builder@.take(pre.len() as int)[i]);
                        assert(spec_font_keys_fresh(pre, f));
                        assert(!spec_key_of_font(pre[i].0, f));
                    } else if i == pre.len() {
                        assert(builder@[i].0 == SectorId::FontHeader(font_index));
                    } else if i == pre.len() + 1 {
                        assert(builder@[i].0 == SectorId::FontGlyphWidths(font_index));
                    } else if i == pre.len() + 2 {
                        assert(builder@[i].0 == SectorId::FontGlyphBitmaps(font_index));
                    } else {
                        assert(spec_is_font_bitmap_sector(
                            builder@[i],
                            font_index,
                            font_glyphs.glyphs@,
                            font_glyphs.first_glyph,
                            font_glyphs.last_glyph,
                        ));
                    }
                }
            }
        }
        font_index = font_index + 1;
    }

    Ok(builder)
}

} // verus!
