//! Pixel color types used when packing sprite and glyph images: full 24-bit
//! color, a packed 8-bit 3-3-2 form, and one-bit monochrome.

use vstd::prelude::*;

verus! {

/// A 24-bit color: one byte each of red, green and blue.
#[derive(Debug, Clone, Copy, PartialEq, Eq, Structural)]
pub struct ColorRGB24 {
    pub red: u8,
    pub green: u8,
    pub blue: u8,
}

impl From<(u8, u8, u8)> for ColorRGB24 {
    fn from(value: (u8, u8, u8)) -> (r: Self)
        ensures
            r == (ColorRGB24 { red: value.0, green: value.1, blue: value.2 }),
    {
        let (red, green, blue) = value;
        ColorRGB24 { red, green, blue }
    }
}

impl vstd::std_specs::convert::FromSpecImpl<(u8, u8, u8)> for ColorRGB24 {
    open spec fn obeys_from_spec() -> bool {
        true
    }

    open spec fn from_spec(value: (u8, u8, u8)) -> Self {
        ColorRGB24 { red: value.0, green: value.1, blue: value.2 }
    }
}

impl From<ColorRGB24> for (u8, u8, u8) {
    fn from(value: ColorRGB24) -> (r: Self)
        ensures
            r == (value.red, value.green, value.blue),
    {
        (value.red, value.green, value.blue)
    }
}

impl vstd::std_specs::convert::FromSpecImpl<ColorRGB24> for (u8, u8, u8) {
    open spec fn obeys_from_spec() -> bool {
        true
    }

    open spec fn from_spec(value: ColorRGB24) -> Self {
        (value.red, value.green, value.blue)
    }
}

impl From<[u8; 3]> for ColorRGB24 {
    fn from(value: [u8; 3]) -> (r: Self)
        ensures
            r == (ColorRGB24 { red: value@[0], green: value@[1], blue: value@[2] }),
    {
        ColorRGB24 { red: value[0], green: value[1], blue: value[2] }
    }
}

impl vstd::std_specs::convert::FromSpecImpl<[u8; 3]> for ColorRGB24 {
    open spec fn obeys_from_spec() -> bool {
        true
    }

    open spec fn from_spec(value: [u8; 3]) -> Self {
        ColorRGB24 { red: value@[0], green: value@[1], blue: value@[2] }
    }
}

impl From<ColorRGB24> for [u8; 3] {
    fn from(value: ColorRGB24) -> (r: Self)
        ensures
            r@ == seq![value.red, value.green, value.blue],
    {
        let r = [value.red, value.green, value.blue];
        proof {
            assert(r@ =~= seq![value.red, value.green, value.blue]);
        }
        r
    }
}

impl vstd::std_specs::convert::FromSpecImpl<ColorRGB24> for [u8; 3] {
    open spec fn obeys_from_spec() -> bool {
        false
    }

    open spec fn from_spec(value: ColorRGB24) -> Self {
        arbitrary()
    }
}

/// A single monochrome pixel: set or clear.
#[derive(Debug, Clone, Copy, PartialEq, Eq, Structural)]
pub struct ColorMonochrome(pub bool);

impl View for ColorMonochrome {
    type V = bool;

    open spec fn view(&self) -> bool {
        self.0
    }
}

impl From<ColorMonochrome> for bool {
    fn from(value: ColorMonochrome) -> (r: Self)
        ensures
            r == value.0,
    {
        value.0
    }
}

impl vstd::std_specs::convert::FromSpecImpl<ColorMonochrome> for bool {
    open spec fn obeys_from_spec() -> bool {
        true
    }

    open spec fn from_spec(value: ColorMonochrome) -> Self {
        value.0
    }
}

impl From<bool> for ColorMonochrome {
    fn from(value: bool) -> (r: Self)
        ensures
            r == ColorMonochrome(value),
    {
        ColorMonochrome(value)
    }
}

impl vstd::std_specs::convert::FromSpecImpl<bool> for ColorMonochrome {
    open spec fn obeys_from_spec() -> bool {
        true
    }

    open spec fn from_spec(value: bool) -> Self {
        ColorMonochrome(value)
    }
}

/// A packed 8-bit color: three bits of red, three of green, two of blue.
#[derive(Debug, Clone, Copy, PartialEq, Eq, Structural)]
pub struct Color8(pub u8);

impl From<u8> for Color8 {
    fn from(value: u8) -> (r: Self)
        ensures
            r == Color8(value),
    {
        Color8(value)
    }
}

impl vstd::std_specs::convert::FromSpecImpl<u8> for Color8 {
    open spec fn obeys_from_spec() -> bool {
        true
    }

    open spec fn from_spec(value: u8) -> Self {
        Color8(value)
    }
}

impl From<Color8> for u8 {
    fn from(value: Color8) -> (r: Self)
        ensures
            r == value.0,
    {
        value.0
    }
}

impl vstd::std_specs::convert::FromSpecImpl<Color8> for u8 {
    open spec fn obeys_from_spec() -> bool {
        true
    }

    open spec fn from_spec(value: Color8) -> Self {
        value.0
    }
}

/// The packed 3-3-2 byte of a 24-bit color: the top three bits of red moved
/// to the high bits, the top three of green in the low bits, the top two of
/// blue between them. The three parts occupy disjoint bits, so their sum is
/// their union.
pub open spec fn spec_pack_332(value: ColorRGB24) -> u8 {
    ((value.red / 32) * 32 + value.green / 32 + (value.blue / 64) * 8) as u8
}

impl From<ColorRGB24> for Color8 {
    fn from(value: ColorRGB24) -> (r: Self)
        ensures
            r == Color8(spec_pack_332(value)),
    {
        let red = (value.red / 32) * 32;
        let green = value.green / 32;
        let blue = (value.blue / 64) * 8;
        Color8(red + green + blue)
    }
}

impl vstd::std_specs::convert::FromSpecImpl<ColorRGB24> for Color8 {
    open spec fn obeys_from_spec() -> bool {
        true
    }

    open spec fn from_spec(value: ColorRGB24) -> Self {
        Color8(spec_pack_332(value))
    }
}

} // verus!
