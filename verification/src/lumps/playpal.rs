//! Colors and palettes, as the palette lump stores them.

use vstd::prelude::*;

verus! {

/// One color: its red, green and blue parts.
#[derive(Debug, Clone, Copy, PartialEq, Eq, Structural)]
pub struct Color {
    pub r: u8,
    pub g: u8,
    pub b: u8,
}

/// The color that three bytes hold: red, green, blue.
pub open spec fn spec_color(bytes: Seq<u8>) -> Color
    recommends
        bytes.len() == 3,
{
    Color { r: bytes[0], g: bytes[1], b: bytes[2] }
}

impl Color {
    pub const BYTES: usize = 3;

    /// Decodes a color from its three bytes.
    pub fn from_bytes(data: &[u8; 3]) -> (color: Self)
        ensures
            color == spec_color(data@),
    {
        Self { r: data[0], g: data[1], b: data[2] }
    }
}

/// A color equals three bytes if they are its red, green and blue parts.
impl PartialEq<[u8; 3]> for Color {
    fn eq(&self, other: &[u8; 3]) -> (equal: bool) {
        self.r == other[0] && self.g == other[1] && self.b == other[2]
    }
}

impl vstd::std_specs::cmp::PartialEqSpecImpl<[u8; 3]> for Color {
    open spec fn obeys_eq_spec() -> bool {
        true
    }

    open spec fn eq_spec(&self, other: &[u8; 3]) -> bool {
        self.r == other@[0] && self.g == other@[1] && self.b == other@[2]
    }
}

/// The 256 colors that 768 bytes hold, three bytes each, in order.
pub open spec fn spec_palette(bytes: Seq<u8>) -> Seq<Color>
    recommends
        bytes.len() == 768,
{
    Seq::new(256, |i: int| spec_color(bytes.subrange(3 * i, 3 * i + 3)))
}

/// A table of 256 colors, found by position.
#[derive(Debug, Clone, Copy, PartialEq, Eq)]
pub struct Palette {
    pub colors: [Color; 256],
}

impl View for Palette {
    type V = Seq<Color>;

    open spec fn view(&self) -> Seq<Color> {
        self.colors@
    }
}

impl Palette {
    pub const NUM_COLORS: usize = 256;

    pub const BYTES: usize = 768;

    /// Decodes a palette from its 768 bytes.
    pub fn from_bytes(bytes: &[u8; 768]) -> (palette: Self)
        ensures
            palette@ == spec_palette(bytes@),
    {
        let mut colors = [Color { r: 0, g: 0, b: 0 }; 256];
        let mut i: usize = 0;
        while i < 256
            invariant
                i <= 256,
                forall|j: int|
                    0 <= j < i ==> colors@[j] == spec_color(
                        #[trigger] bytes@.subrange(3 * j, 3 * j + 3),
                    ),
            decreases 256 - i,
        {
            let triple = [bytes[3 * i], bytes[3 * i + 1], bytes[3 * i + 2]];
            assert(triple@ =~= bytes@.subrange(3 * i, 3 * i + 3));
            colors[i] = Color::from_bytes(&triple);
            i += 1;
        }
        assert(colors@ =~= spec_palette(bytes@));
        Self { colors }
    }
}

} // verus!
