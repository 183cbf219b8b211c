use vstd::prelude::*;
use crate::bit::Bit;
use crate::overlay::{is_square, overlaid, lemma_overlaid_at, lemma_overlaid_shape};
use crate::pattern::{finder_dark, finder_template, horizontal_stripe, timing_module, vertical_stripe};

verus! {

/// Modules per side of the smallest symbol.
pub const VERSION_1_SIZE: u8 = 21;

/// The largest version there is.
pub const MAX_VERSION: u8 = 40;

/// Width of the blank margin around the symbol.
pub const QUIET_ZONE_WIDTH: usize = 4;

/// Symbol row and symbol column that carry the timing stripes.
pub const TIMING_PATTERN_OFFSET: usize = 6;

/// Whether `version` names a symbol.
pub open spec fn valid_version(version: int) -> bool {
    1 <= version <= MAX_VERSION
}

/// Modules per side of the symbol of a version, the quiet zone not counted.
pub open spec fn size_of_version(version: int) -> int {
    VERSION_1_SIZE + (version - 1) * 4
}

/// Whether a symbol of some version has `size` modules per side.
pub open spec fn valid_size(size: int) -> bool {
    21 <= size <= 177 && (size - 21) % 4 == 0
}

/// Whether grid position `(row, col)` lies in the quiet zone of a grid of
/// `full_size` modules per side.
pub open spec fn in_quiet_zone(row: int, col: int, full_size: int) -> bool {
    ||| row < QUIET_ZONE_WIDTH
    ||| col < QUIET_ZONE_WIDTH
    ||| row >= full_size - QUIET_ZONE_WIDTH
    ||| col >= full_size - QUIET_ZONE_WIDTH
}

/// The grid before any pattern is placed: nothing is dark, and exactly the
/// quiet zone is reserved.
pub open spec fn blank_grid(full_size: int) -> Seq<Seq<Bit>> {
    Seq::new(
        full_size as nat,
        |i: int|
            Seq::new(
                full_size as nat,
                |j: int| Bit { on: false, reserved: in_quiet_zone(i, j, full_size) },
            ),
    )
}

/// `grid` with the finder template laid at the top left, the top right and
/// the bottom left corner of a symbol of `size` modules per side, in that
/// order. The places are grid positions: the template's first module goes
/// into the last row and column of the quiet zone, so that its separator
/// falls on the quiet zone and the finder pattern proper starts at the
/// symbol's edge.
pub open spec fn with_finders(grid: Seq<Seq<Bit>>, size: int) -> Seq<Seq<Bit>> {
    let top_left = overlaid(grid, finder_template(), 3, 3);
    let top_right = overlaid(top_left, finder_template(), 3, size - 7 + 3);
    overlaid(top_right, finder_template(), size - 7 + 3, 3)
}

/// `grid` with the horizontal and then the vertical timing stripe laid on
/// symbol row 6 and symbol column 6, which are grid row 10 and grid column
/// 10; both stripes start at the symbol's edge, grid index 4.
pub open spec fn with_timing(grid: Seq<Seq<Bit>>, size: int) -> Seq<Seq<Bit>> {
    overlaid(overlaid(grid, horizontal_stripe(size), 10, 4), vertical_stripe(size), 4, 10)
}

/// Whether symbol position `(row, col)` belongs to one of the three corners
/// that a finder pattern and its separator take up.
pub open spec fn in_finder_corner(size: int, row: int, col: int) -> bool {
    ||| row < 8 && col < 8
    ||| row < 8 && col >= size - 8
    ||| row >= size - 8 && col < 8
}

/// Whether the finder pattern that owns symbol position `(row, col)` is dark
/// there.
pub open spec fn finder_corner_dark(size: int, row: int, col: int) -> bool {
    let r = if row < 8 { row + 1 } else { row - (size - 8) };
    let c = if col < 8 { col + 1 } else { col - (size - 8) };
    finder_dark(r, c)
}

/// The module at symbol position `(row, col)` of the finished symbol of `size`
/// modules per side. The finder corners come first, then the timing stripes
/// on row 6 and column 6; everything else is still free.
pub open spec fn symbol_module(size: int, row: int, col: int) -> Bit {
    if in_finder_corner(size, row, col) {
        Bit { on: finder_corner_dark(size, row, col), reserved: true }
    } else if row == 6 {
        timing_module(col)
    } else if col == 6 {
        timing_module(row)
    } else {
        Bit::free()
    }
}

/// The module at grid position `(i, j)` of the finished grid: blank and
/// reserved in the quiet zone, the symbol's module inside it.
pub open spec fn skeleton_module(size: int, i: int, j: int) -> Bit {
    if in_quiet_zone(i, j, size + 8) {
        Bit { on: false, reserved: true }
    } else {
        symbol_module(size, i - 4, j - 4)
    }
}

/// The finished grid of a symbol of `size` modules per side.
pub open spec fn skeleton(size: int) -> Seq<Seq<Bit>> {
    Seq::new(
        (size + 8) as nat,
        |i: int| Seq::new((size + 8) as nat, |j: int| skeleton_module(size, i, j)),
    )
}

/// The sizes of the forty versions run from 21 to 177 in steps of four.
pub proof fn lemma_size_of_version(version: int)
    requires
        valid_version(version),
    ensures
        valid_size(size_of_version(version)),
        size_of_version(version) == 17 + 4 * version,
        version == 1 ==> size_of_version(version) == 21,
        version == 40 ==> size_of_version(version) == 177,
{
}

/// Placing the finder patterns and then the timing stripes on the blank grid
/// gives the finished grid.
pub proof fn lemma_composition(size: int)
    requires
        valid_size(size),
    ensures
        with_timing(with_finders(blank_grid(size + 8), size), size) == skeleton(size),
{
    let side = size + 8;
    let g0 = blank_grid(side);
    let g1 = overlaid(g0, finder_template(), 3, 3);
    let g2 = overlaid(g1, finder_template(), 3, size - 7 + 3);
    let g3 = overlaid(g2, finder_template(), size - 7 + 3, 3);
    let g4 = overlaid(g3, horizontal_stripe(size), 10, 4);
    let g5 = overlaid(g4, vertical_stripe(size), 4, 10);
    assert(is_square(g0, side));
    lemma_overlaid_shape(g0, finder_template(), 3, 3);
    lemma_overlaid_shape(g1, finder_template(), 3, size - 7 + 3);
    lemma_overlaid_shape(g2, finder_template(), size - 7 + 3, 3);
    lemma_overlaid_shape(g3, horizontal_stripe(size), 10, 4);
    lemma_overlaid_shape(g4, vertical_stripe(size), 4, 10);
    assert forall|i: int| 0 <= i < side implies #[trigger] g5[i] =~= skeleton(size)[i] by {
        assert forall|j: int| 0 <= j < side implies g5[i][j] == skeleton_module(size, i, j) by {
            lemma_overlaid_at(g0, finder_template(), 3, 3, i, j);
            lemma_overlaid_at(g1, finder_template(), 3, size - 7 + 3, i, j);
            lemma_overlaid_at(g2, finder_template(), size - 7 + 3, 3, i, j);
            lemma_overlaid_at(g3, horizontal_stripe(size), 10, 4, i, j);
            lemma_overlaid_at(g4, vertical_stripe(size), 4, 10, i, j);
        }
    }
    assert(g5 =~= skeleton(size));
}

/// The finished grid is a square of `size + 8` modules per side.
pub proof fn lemma_skeleton_is_square(size: int)
    requires
        valid_size(size),
    ensures
        is_square(skeleton(size), size + 8),
{
}

/// Every module of the quiet zone, the outer four rows and columns of the
/// finished grid, is light and reserved.
pub proof fn lemma_quiet_zone_is_blank(size: int, i: int, j: int)
    requires
        valid_size(size),
        0 <= i < size + 8,
        0 <= j < size + 8,
        in_quiet_zone(i, j, size + 8),
    ensures
        skeleton(size)[i][j] == (Bit { on: false, reserved: true }),
{
}

/// Symbol position `(row, col)` is grid position `(row + 4, col + 4)`, and
/// the finished grid holds the symbol's module there.
pub proof fn lemma_skeleton_holds_symbol(size: int, row: int, col: int)
    requires
        valid_size(size),
        0 <= row < size,
        0 <= col < size,
    ensures
        skeleton(size)[row + 4][col + 4] == symbol_module(size, row, col),
{
}

/// The three finder patterns are alike: what the top left one holds at
/// `(row, col)`, the top right one holds `size - 7` columns further right and
/// the bottom left one `size - 7` rows further down. Each is dark where the
/// template is, one module in from the template's separator.
pub proof fn lemma_finders_are_alike(size: int, row: int, col: int)
    requires
        valid_size(size),
        0 <= row < 7,
        0 <= col < 7,
    ensures
        symbol_module(size, row, col) == (Bit { on: finder_dark(row + 1, col + 1), reserved: true }),
        symbol_module(size, row, col + size - 7) == symbol_module(size, row, col),
        symbol_module(size, row + size - 7, col) == symbol_module(size, row, col),
{
}

/// Outside the finder corners the timing stripes alternate along symbol row 6
/// and symbol column 6, dark at even positions, and everything off the
/// stripes is free.
pub proof fn lemma_timing_alternates(size: int, row: int, col: int)
    requires
        valid_size(size),
        0 <= row < size,
        0 <= col < size,
        !in_finder_corner(size, row, col),
    ensures
        row == 6 ==> symbol_module(size, row, col) == (Bit { on: col % 2 == 0, reserved: true }),
        col == 6 ==> symbol_module(size, row, col) == (Bit { on: row % 2 == 0, reserved: true }),
        row != 6 && col != 6 ==> symbol_module(size, row, col) == Bit::free(),
{
}

/// The order of placement is the order of priority. Were the timing stripes
/// laid before the finder patterns, the horizontal stripe would fix symbol
/// position `(6, 1)` as light, where the finder pattern is dark.
pub proof fn lemma_finders_go_first(size: int)
    requires
        valid_size(size),
    ensures
        with_finders(with_timing(blank_grid(size + 8), size), size)[10][5] == (Bit {
            on: false,
            reserved: true,
        }),
        skeleton(size)[10][5] == (Bit { on: true, reserved: true }),
{
    let g0 = blank_grid(size + 8);
    let g1 = overlaid(g0, horizontal_stripe(size), 10, 4);
    let g2 = overlaid(g1, vertical_stripe(size), 4, 10);
    let g3 = overlaid(g2, finder_template(), 3, 3);
    let g4 = overlaid(g3, finder_template(), 3, size - 7 + 3);
    lemma_overlaid_shape(g0, horizontal_stripe(size), 10, 4);
    lemma_overlaid_shape(g1, vertical_stripe(size), 4, 10);
    lemma_overlaid_shape(g2, finder_template(), 3, 3);
    lemma_overlaid_shape(g3, finder_template(), 3, size - 7 + 3);
    lemma_overlaid_at(g0, horizontal_stripe(size), 10, 4, 10, 5);
    lemma_overlaid_at(g1, vertical_stripe(size), 4, 10, 10, 5);
    lemma_overlaid_at(g2, finder_template(), 3, 3, 10, 5);
    lemma_overlaid_at(g3, finder_template(), 3, size - 7 + 3, 10, 5);
    lemma_overlaid_at(g4, finder_template(), size - 7 + 3, 3, 10, 5);
}

} // verus!
