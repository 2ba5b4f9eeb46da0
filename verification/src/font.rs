//! Rendered text as pixels.

use vstd::prelude::*;

verus! {

/// A bitmap of rendered text: `width * height` pixels of four bytes each,
/// red, green, blue, alpha, row by row.
pub struct TextBitmap {
    pub width: usize,
    pub height: usize,
    pub data: Vec<u8>,
}

impl TextBitmap {
    /// The bitmap holds four bytes for each of its pixels.
    pub open spec fn wf(&self) -> bool {
        self.data@.len() == self.width * self.height * 4 && self.data@.len() <= usize::MAX
    }

    /// Where the pixel at column `x` of row `y` starts in the data.
    pub open spec fn offset(&self, x: int, y: int) -> int {
        (y * self.width + x) * 4
    }
}

} // verus!
