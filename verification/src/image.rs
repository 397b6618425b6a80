//! The mathematical model of a picture: a grid of RGB pixels.

use vstd::prelude::*;

verus! {

/// One pixel in packed 8-bit RGB.
#[derive(Clone, Copy, Debug, PartialEq, Eq, Structural)]
pub struct Rgb {
    pub r: u8,
    pub g: u8,
    pub b: u8,
}

/// A picture as contracts see it: `height` rows of `width` pixels each,
/// free of any notion of stride or byte layout.
pub struct Image {
    pub width: nat,
    pub height: nat,
    pub rows: Seq<Seq<Rgb>>,
}

impl Image {
    /// The picture has at least one pixel and every row has `width` pixels.
    pub open spec fn wf(self) -> bool {
        &&& self.width >= 1
        &&& self.height >= 1
        &&& self.rows.len() == self.height
        &&& forall|y: int| 0 <= y < self.height ==> (#[trigger] self.rows[y]).len() == self.width
    }

    /// The pixel in column `x` of row `y`.
    pub open spec fn pixel(self, x: int, y: int) -> Rgb {
        self.rows[y][x]
    }

    /// Two pictures have the same width and height.
    pub open spec fn same_size(self, other: Image) -> bool {
        self.width == other.width && self.height == other.height
    }
}

/// Every picture of the clip is well formed and all share the size of the first.
pub open spec fn uniform(clip: Seq<Image>) -> bool {
    forall|t: int| 0 <= t < clip.len() ==> (#[trigger] clip[t]).wf() && clip[t].same_size(clip[0])
}

} // verus!
