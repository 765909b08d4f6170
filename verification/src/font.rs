//! Font glyphs gathered for packing: each glyph's packed bitmap and width,
//! keyed by its code-page index, together with the row-wise bit packing of
//! monochrome pixels into bytes.

pub mod definition;
pub mod output;

use std::collections::HashMap;

use vstd::prelude::*;

use crate::sprite::ColorMonochrome;

verus! {

broadcast use vstd::std_specs::hash::group_hash_axioms;

/// The byte packing one group of up to eight pixels, bits taken from the
/// high end down, starting with the pixel at `k`.
pub open spec fn spec_pack_bits(group: Seq<bool>, k: int) -> u8
    decreases group.len() - k,
{
    if k < 0 || k >= group.len() || k >= 8 {
        0
    } else {
        (if group[k] {
            (128u8 / spec_bit_div(k)) as u8
        } else {
            0u8
        }) | spec_pack_bits(group, k + 1)
    }
}

/// `2 ^ k` for `k` up to seven: the divisor that moves a bit down from the
/// high end.
pub open spec fn spec_bit_div(k: int) -> u8 {
    if k <= 0 {
        1
    } else if k == 1 {
        2
    } else if k == 2 {
        4
    } else if k == 3 {
        8
    } else if k == 4 {
        16
    } else if k == 5 {
        32
    } else if k == 6 {
        64
    } else {
        128
    }
}

/// One row of pixels packed into bytes, eight pixels to a byte, the last
/// byte padded with clear bits.
pub open spec fn spec_pack_row(row: Seq<bool>) -> Seq<u8>
    decreases row.len(),
{
    if row.len() == 0 {
        Seq::empty()
    } else if row.len() <= 8 {
        seq![spec_pack_bits(row, 0)]
    } else {
        seq![spec_pack_bits(row.take(8), 0)] + spec_pack_row(row.skip(8))
    }
}

/// All complete rows of `width` pixels packed row by row; trailing pixels
/// short of a full row are dropped.
pub open spec fn spec_pack_pixels(pixels: Seq<bool>, width: nat) -> Seq<u8>
    recommends
        width >= 1,
    decreases pixels.len(),
{
    if width == 0 || pixels.len() < width {
        Seq::empty()
    } else {
        spec_pack_row(pixels.take(width as int)) + spec_pack_pixels(
            pixels.skip(width as int),
            width,
        )
    }
}

/// The glyphs of one font while it is being gathered: each glyph's packed
/// bitmap and width under its code-page index, and the lowest and highest
/// index seen.
#[derive(Debug)]
pub struct FontGlyphs {
    pub glyphs: HashMap<u8, (Vec<u8>, u8)>,
    pub first_glyph: u8,
    pub last_glyph: u8,
}

impl Default for FontGlyphs {
    /// No glyphs: the index bounds start inverted so any insertion narrows
    /// them.
    fn default() -> (r: Self)
        ensures
            r.glyphs@ == Map::<u8, (Vec<u8>, u8)>::empty(),
            r.first_glyph == 255,
            r.last_glyph == 0,
    {
        FontGlyphs { glyphs: HashMap::new(), first_glyph: 255, last_glyph: 0 }
    }
}

impl FontGlyphs {
    /// Records one glyph's packed bitmap and width under its index, widening
    /// the index bounds. A glyph already recorded under the index is
    /// replaced.
    pub fn insert(&mut self, index: u8, width: u8, bitmap: Vec<u8>)
        ensures
            final(self).glyphs@ == old(self).glyphs@.insert(index, (bitmap, width)),
            final(self).first_glyph == if index < old(self).first_glyph {
                index
            } else {
                old(self).first_glyph
            },
            final(self).last_glyph == if index > old(self).last_glyph {
                index
            } else {
                old(self).last_glyph
            },
    {
        if index < self.first_glyph {
            self.first_glyph = index;
        }
        if index > self.last_glyph {
            self.last_glyph = index;
        }
        self.glyphs.insert(index, (bitmap, width));
    }

    /// How many code-page positions the font covers, bounds inclusive. A
    /// span of the whole code page is clamped one short, since the count
    /// must fit one byte.
    pub fn glyph_count(&self) -> (r: u8)
        requires
            self.first_glyph <= self.last_glyph,
        ensures
            r == if self.last_glyph - self.first_glyph < 255 {
                self.last_glyph - self.first_glyph + 1
            } else {
                255int
            },
    {
        let span = self.last_glyph - self.first_glyph;
        if span < 255 {
            span + 1
        } else {
            255
        }
    }

    /// Packs monochrome pixels row by row into bytes: each complete row of
    /// `width` pixels becomes its own run of bytes, eight pixels to a byte
    /// from the high bit down, the last byte of a row padded with clear
    /// bits.
    pub fn pixels_to_bytes(width: u8, pixels: Vec<ColorMonochrome>) -> (r: Vec<u8>)
        requires
            width >= 1,
        ensures
            r@ == spec_pack_pixels(
                pixels@.map_values(|c: ColorMonochrome| c@),
                width as nat,
            ),
    {
        let mut out: Vec<u8> = Vec::new();
        pack_rows(&mut out, &pixels, 0, width as usize);
        proof {
            assert(pixels@.map_values(|c: ColorMonochrome| c@).skip(0) =~= pixels@.map_values(
                |c: ColorMonochrome| c@,
            ));
        }
        out
    }
}

/// Packs every complete row at or after `start` onto the end of `out`.
fn pack_rows(out: &mut Vec<u8>, pixels: &Vec<ColorMonochrome>, start: usize, width: usize)
    requires
        width >= 1,
        start <= pixels@.len(),
    ensures
        final(out)@ == old(out)@ + spec_pack_pixels(
            pixels@.map_values(|c: ColorMonochrome| c@).skip(start as int),
            width as nat,
        ),
    decreases pixels@.len() - start,
{
    let ghost all = pixels@.map_values(|c: ColorMonochrome| c@);
    if pixels.len() - start < width {
        proof {
            assert(out@ =~= out@ + spec_pack_pixels(all.skip(start as int), width as nat));
        }
    } else {
        pack_row_groups(out, pixels, start, start + width);
        proof {
            assert(all.skip(start as int).take(width as int) =~= all.subrange(
                start as int,
                start as int + width as int,
            ));
        }
        pack_rows(out, pixels, start + width, width);
        proof {
            assert(all.skip(start as int).skip(width as int) =~= all.skip(
                start as int + width as int,
            ));
            assert(final(out)@ =~= old(out)@ + spec_pack_pixels(
                all.skip(start as int),
                width as nat,
            ));
        }
    }
}

/// Packs the pixels of one row, `start` up to `end`, onto the end of `out`,
/// eight to a byte.
fn pack_row_groups(out: &mut Vec<u8>, pixels: &Vec<ColorMonochrome>, start: usize, end: usize)
    requires
        start <= end <= pixels@.len(),
    ensures
        final(out)@ == old(out)@ + spec_pack_row(
            pixels@.map_values(|c: ColorMonochrome| c@).subrange(start as int, end as int),
        ),
    decreases end - start,
{
    let ghost all = pixels@.map_values(|c: ColorMonochrome| c@);
    let ghost row = all.subrange(start as int, end as int);
    if start == end {
        proof {
            assert(out@ =~= out@ + spec_pack_row(row));
        }
    } else if end - start <= 8 {
        let byte = pack_group(pixels, start, end, start);
        out.push(byte);
        proof {
            assert(out@ =~= old(out)@ + spec_pack_row(row));
        }
    } else {
        let byte = pack_group(pixels, start, start + 8, start);
        out.push(byte);
        proof {
            assert(all.subrange(start as int, start as int + 8) =~= row.take(8));
        }
        pack_row_groups(out, pixels, start + 8, end);
        proof {
            assert(all.subrange(start as int + 8, end as int) =~= row.skip(8));
            assert(final(out)@ =~= old(out)@ + spec_pack_row(row));
        }
    }
}

/// The byte for one group of up to eight pixels, `k` through `end`, with the
/// pixel at `start` mapped to the highest bit.
fn pack_group(pixels: &Vec<ColorMonochrome>, start: usize, end: usize, k: usize) -> (r: u8)
    requires
        start <= k <= end <= pixels@.len(),
        end - start <= 8,
    ensures
        r == spec_pack_bits(
            pixels@.map_values(|c: ColorMonochrome| c@).subrange(start as int, end as int),
            k - start,
        ),
    decreases end - k,
{
    let ghost group = pixels@.map_values(|c: ColorMonochrome| c@).subrange(
        start as int,
        end as int,
    );
    if k == end {
        0
    } else {
        let bit: u8 = if pixels[k].0 {
            let shift = k - start;
            let divisor: u8 = if shift == 0 {
                1
            } else if shift == 1 {
                2
            } else if shift == 2 {
                4
            } else if shift == 3 {
                8
            } else if shift == 4 {
                16
            } else if shift == 5 {
                32
            } else if shift == 6 {
                64
            } else {
                128
            };
            proof {
                assert(divisor == spec_bit_div(k - start));
            }
            128 / divisor
        } else {
            0
        };
        let rest = pack_group(pixels, start, end, k + 1);
        bit | rest
    }
}

} // verus!
