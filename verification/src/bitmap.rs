//! Decoded image data: plain RGB pixel buffers, optionally paired with the
//! palette and index image they were expanded from.

use vstd::prelude::*;

verus! {

/// One opaque pixel. The container format stores colors blue-green-red;
/// every decoder converts to this red-green-blue form on read.
#[derive(Debug, Clone, Copy, PartialEq, Eq, Structural)]
pub struct Rgb {
    pub r: u8,
    pub g: u8,
    pub b: u8,
}

/// One pixel with transparency, used by cursor images.
#[derive(Debug, Clone, Copy, PartialEq, Eq, Structural)]
pub struct Rgba {
    pub r: u8,
    pub g: u8,
    pub b: u8,
    pub a: u8,
}

/// A palette together with the 8-bit index image that referenced it.
#[derive(Debug, Clone)]
pub struct PaletteBitmap {
    pub palette: Vec<Rgb>,
    pub image: Vec<u8>,
}

/// A fully decoded bitmap resource.
///
/// When `palette` is present, `data[i]` is `palette.palette[palette.image[i]]`
/// for every pixel; decoding fails rather than clamp an out-of-range index.
#[derive(Debug, Clone)]
pub struct Bitmap {
    pub width: u16,
    pub height: u16,
    pub palette: Option<PaletteBitmap>,
    pub data: Vec<Rgb>,
}

impl Bitmap {
    /// The pixel buffer covers the full image and, when a palette is present,
    /// agrees with it pointwise.
    pub open spec fn wf(self) -> bool {
        &&& self.data@.len() == self.width as int * self.height as int
        &&& match self.palette {
            Some(p) => {
                &&& p.image@.len() == self.data@.len()
                &&& forall|i: int|
                    0 <= i < p.image@.len() ==> (p.image@[i] as int) < p.palette@.len()
                &&& forall|i: int|
                    0 <= i < p.image@.len() ==> self.data@[i] == p.palette@[p.image@[i] as int]
            },
            None => true,
        }
    }
}

/// A decoded cursor image with its hotspot.
#[derive(Debug, Clone)]
pub struct Cursor {
    pub width: u16,
    pub height: u16,
    pub hotspot_x: u16,
    pub hotspot_y: u16,
    pub data: Vec<Rgba>,
}

} // verus!
