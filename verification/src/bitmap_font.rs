//! The built-in font: glyphs of seven by nine cells for digits, letters and a
//! few signs, and a box for everything else.

use vstd::prelude::*;

verus! {

/// Cells in a row of a glyph.
pub const GLYPH_COLS: usize = 7;

/// Rows of a glyph.
pub const GLYPH_ROWS: usize = 9;

/// Cells of a glyph.
pub const GLYPH_CELLS: usize = 63;

/// The glyph of a character as a word: bit `row * 7 + col` is set where the
/// cell at that row and column is inked. A character without a glyph is a
/// box.
pub open spec fn glyph_of(ch: char) -> u64 {
    match ch {
        '0' => 0x3e83060c183060be,
        '1' => 0x7f10204081028608,
        '2' => 0x7f041041041020be,
        '3' => 0x3e830201861020be,
        '4' => 0x102043f912450c10,
        '5' => 0x3e83020407e040ff,
        '6' => 0x3e83060bf02060be,
        '7' => 0x000208208208207f,
        '8' => 0x3e83060be83060be,
        '9' => 0x3f83060c183060be,
        'a' => 0x003c850a14270000,
        'b' => 0x003e850a13e04081,
        'c' => 0x003c840814278000,
        'd' => 0x007c850a17c81020,
        'e' => 0x003c840bf4278000,
        'f' => 0x0004081023e0911c,
        'g' => 0x1e40f90a142f8000,
        'h' => 0x0042850a13e04081,
        'i' => 0x001c102040838004,
        'j' => 0x0612204081070008,
        'k' => 0x0042444871244081,
        'l' => 0x001c10204081020e,
        'm' => 0x002a54a952a6c000,
        'n' => 0x002244891227c000,
        'o' => 0x003c850a14278000,
        'p' => 0x01027d0a1427c000,
        'q' => 0x2040f90a142f8000,
        'r' => 0x000204081427c000,
        's' => 0x003c8480f4278000,
        't' => 0x003808102047c102,
        'u' => 0x003c850a14284000,
        'v' => 0x0018490a14284000,
        'w' => 0x004454aa14284000,
        'x' => 0x00424860c2484000,
        'y' => 0x0820309214284000,
        'z' => 0x007e0820820fc000,
        'A' => 0x4183060ff83060be,
        'B' => 0x3f83060bf83060bf,
        'C' => 0x3e820408102060be,
        'D' => 0x3f83060c183060bf,
        'E' => 0x7f02040bf02040ff,
        'F' => 0x0102040bf02040ff,
        'G' => 0x3e83060f902060be,
        'H' => 0x4183060ff83060c1,
        'I' => 0x7f1020408102047f,
        'J' => 0x1e4285020408107f,
        'K' => 0x2122242830a248a1,
        'L' => 0x7f02040810204081,
        'M' => 0x4183064c9ab571c1,
        'N' => 0x61a3464c98b161c1,
        'O' => 0x3e83060c183060be,
        'P' => 0x0102040bf83060bf,
        'Q' => 0x7e83868c183060be,
        'R' => 0x4182848bf83060bf,
        'S' => 0x3e830203e02060be,
        'T' => 0x081020408102047f,
        'U' => 0x3e83060c183060c1,
        'V' => 0x1c448a0c183060c1,
        'W' => 0x41c756ac183060c1,
        'X' => 0x4144504142889141,
        'Y' => 0x0810204142889141,
        'Z' => 0x7f0204104104107f,
        ' ' => 0x0000000000000000,
        '!' => 0x0008002040810204,
        '?' => 0x000800204104109e,
        ':' => 0x0008100000010200,
        '-' => 0x00000007f0000000,
        '_' => 0x7f00000000000000,
        '.' => 0x0408000000000000,
        ',' => 0x0208000000000000,
        '/' => 0x0000000820820820,
        _ => 0x7f83060c183060ff,
    }
}

/// The glyph of a character.
pub fn glyph(ch: char) -> (bits: u64)
    ensures
        bits == glyph_of(ch),
{
    match ch {
        '0' => 0x3e83060c183060be,
        '1' => 0x7f10204081028608,
        '2' => 0x7f041041041020be,
        '3' => 0x3e830201861020be,
        '4' => 0x102043f912450c10,
        '5' => 0x3e83020407e040ff,
        '6' => 0x3e83060bf02060be,
        '7' => 0x000208208208207f,
        '8' => 0x3e83060be83060be,
        '9' => 0x3f83060c183060be,
        'a' => 0x003c850a14270000,
        'b' => 0x003e850a13e04081,
        'c' => 0x003c840814278000,
        'd' => 0x007c850a17c81020,
        'e' => 0x003c840bf4278000,
        'f' => 0x0004081023e0911c,
        'g' => 0x1e40f90a142f8000,
        'h' => 0x0042850a13e04081,
        'i' => 0x001c102040838004,
        'j' => 0x0612204081070008,
        'k' => 0x0042444871244081,
        'l' => 0x001c10204081020e,
        'm' => 0x002a54a952a6c000,
        'n' => 0x002244891227c000,
        'o' => 0x003c850a14278000,
        'p' => 0x01027d0a1427c000,
        'q' => 0x2040f90a142f8000,
        'r' => 0x000204081427c000,
        's' => 0x003c8480f4278000,
        't' => 0x003808102047c102,
        'u' => 0x003c850a14284000,
        'v' => 0x0018490a14284000,
        'w' => 0x004454aa14284000,
        'x' => 0x00424860c2484000,
        'y' => 0x0820309214284000,
        'z' => 0x007e0820820fc000,
        'A' => 0x4183060ff83060be,
        'B' => 0x3f83060bf83060bf,
        'C' => 0x3e820408102060be,
        'D' => 0x3f83060c183060bf,
        'E' => 0x7f02040bf02040ff,
        'F' => 0x0102040bf02040ff,
        'G' => 0x3e83060f902060be,
        'H' => 0x4183060ff83060c1,
        'I' => 0x7f1020408102047f,
        'J' => 0x1e4285020408107f,
        'K' => 0x2122242830a248a1,
        'L' => 0x7f02040810204081,
        'M' => 0x4183064c9ab571c1,
        'N' => 0x61a3464c98b161c1,
        'O' => 0x3e83060c183060be,
        'P' => 0x0102040bf83060bf,
        'Q' => 0x7e83868c183060be,
        'R' => 0x4182848bf83060bf,
        'S' => 0x3e830203e02060be,
        'T' => 0x081020408102047f,
        'U' => 0x3e83060c183060c1,
        'V' => 0x1c448a0c183060c1,
        'W' => 0x41c756ac183060c1,
        'X' => 0x4144504142889141,
        'Y' => 0x0810204142889141,
        'Z' => 0x7f0204104104107f,
        ' ' => 0x0000000000000000,
        '!' => 0x0008002040810204,
        '?' => 0x000800204104109e,
        ':' => 0x0008100000010200,
        '-' => 0x00000007f0000000,
        '_' => 0x7f00000000000000,
        '.' => 0x0408000000000000,
        ',' => 0x0208000000000000,
        '/' => 0x0000000820820820,
        _ => 0x7f83060c183060ff,
    }
}

/// Whether cell `n` of a glyph is inked, cells counted row by row.
pub open spec fn inked(bits: u64, n: int) -> bool {
    0 <= n < GLYPH_CELLS && (bits >> (n as u64)) & 1 == 1
}

/// Whether cell `n` of a glyph is inked.
pub fn is_inked(bits: u64, n: usize) -> (yes: bool)
    requires
        n < GLYPH_CELLS,
    ensures
        yes == inked(bits, n as int),
{
    (bits >> (n as u64)) & 1 == 1
}

} // verus!
