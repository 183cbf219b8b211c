use vstd::prelude::*;
use crate::bit::Bit;

verus! {

/// Side of a finder pattern, without the separator around it.
pub const FINDER_PATTERN_SIZE: usize = 7;

/// Whether every module of `pattern` is reserved.
pub open spec fn all_reserved(pattern: Seq<Seq<Bit>>) -> bool {
    forall|r: int, c: int|
        0 <= r < pattern.len() && 0 <= c < pattern[r].len() ==> (#[trigger] pattern[r][c]).reserved
}

/// The pattern that a matrix of zeros and ones stands for: one reserved
/// module for each entry, dark exactly where the entry is one.
pub open spec fn binary_pattern(matrix: Seq<Vec<u8>>) -> Seq<Seq<Bit>> {
    Seq::new(
        matrix.len(),
        |r: int|
            Seq::new(matrix[r]@.len(), |c: int| Bit { on: matrix[r]@[c] == 1, reserved: true }),
    )
}

/// Whether the finder template is dark at `(r, c)`, both counted from zero at
/// the template's top left corner. Seen from the centre `(4, 4)`, the modules
/// at distance 0 and 1 are the dark core, those at distance 2 the light ring,
/// those at distance 3 the dark ring and those at distance 4 the light
/// separator, the distance being the larger of the two offsets.
pub open spec fn finder_dark(r: int, c: int) -> bool {
    let dr = if r >= 4 { r - 4 } else { 4 - r };
    let dc = if c >= 4 { c - 4 } else { 4 - c };
    let distance = if dr >= dc { dr } else { dc };
    distance == 3 || distance <= 1
}

/// The finder template as a pattern of nine by nine reserved modules.
pub open spec fn finder_template() -> Seq<Seq<Bit>> {
    Seq::new(9, |r: int| Seq::new(9, |c: int| Bit { on: finder_dark(r, c), reserved: true }))
}

/// The module at position `k` of a timing stripe: dark at even positions,
/// light at odd ones, and reserved.
pub open spec fn timing_module(k: int) -> Bit {
    Bit { on: k % 2 == 0, reserved: true }
}

/// The horizontal timing stripe for a symbol of `size` modules per side: one
/// row of `size` modules.
pub open spec fn horizontal_stripe(size: int) -> Seq<Seq<Bit>> {
    Seq::new(1, |r: int| Seq::new(size as nat, |c: int| timing_module(c)))
}

/// The vertical timing stripe for a symbol of `size` modules per side: `size`
/// rows of one module.
pub open spec fn vertical_stripe(size: int) -> Seq<Seq<Bit>> {
    Seq::new(size as nat, |r: int| Seq::new(1, |c: int| timing_module(r)))
}

/// Every pattern that is built from a matrix of zeros and ones is reserved
/// throughout.
pub proof fn lemma_binary_pattern_is_reserved(matrix: Seq<Vec<u8>>)
    ensures
        all_reserved(binary_pattern(matrix)),
{
}

} // verus!
