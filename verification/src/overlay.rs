use vstd::prelude::*;
use crate::bit::Bit;

verus! {

/// The modules that a matrix of rows holds, row by row.
pub open spec fn matrix_view(matrix: Vec<Vec<Bit>>) -> Seq<Seq<Bit>> {
    Seq::new(matrix.len() as nat, |i: int| matrix[i]@)
}

/// Whether `grid` has `side` rows of `side` modules each.
pub open spec fn is_square(grid: Seq<Seq<Bit>>, side: int) -> bool {
    &&& grid.len() == side
    &&& forall|i: int| 0 <= i < side ==> (#[trigger] grid[i]).len() == side
}

/// Whether grid position `(i, j)` lies under `pattern` when the pattern's
/// first module is put at `(top, left)`.
pub open spec fn covers(pattern: Seq<Seq<Bit>>, top: int, left: int, i: int, j: int) -> bool {
    &&& top <= i < top + pattern.len()
    &&& left <= j < left + pattern[i - top].len()
}

/// The grid that results from laying `pattern` over `grid` with its first
/// module at `(top, left)`: every module under the pattern is merged with the
/// pattern's module there, every other module is untouched.
pub open spec fn overlaid(grid: Seq<Seq<Bit>>, pattern: Seq<Seq<Bit>>, top: int, left: int) -> Seq<
    Seq<Bit>,
> {
    Seq::new(
        grid.len(),
        |i: int|
            Seq::new(
                grid[i].len(),
                |j: int|
                    if covers(pattern, top, left, i, j) {
                        grid[i][j].merged(pattern[i - top][j - left])
                    } else {
                        grid[i][j]
                    },
            ),
    )
}

/// `overlaid`, stopped part of the way: the pattern's first `rows` rows have
/// been laid in full, and of the row after them the first `cols` modules.
pub open spec fn overlaid_up_to(
    grid: Seq<Seq<Bit>>,
    pattern: Seq<Seq<Bit>>,
    top: int,
    left: int,
    rows: int,
    cols: int,
) -> Seq<Seq<Bit>> {
    Seq::new(
        grid.len(),
        |i: int|
            Seq::new(
                grid[i].len(),
                |j: int|
                    if covers(pattern, top, left, i, j) && (i - top < rows || (i - top == rows && j
                        - left < cols)) {
                        grid[i][j].merged(pattern[i - top][j - left])
                    } else {
                        grid[i][j]
                    },
            ),
    )
}

/// An overlay keeps the shape of the grid.
pub proof fn lemma_overlaid_shape(grid: Seq<Seq<Bit>>, pattern: Seq<Seq<Bit>>, top: int, left: int)
    ensures
        overlaid(grid, pattern, top, left).len() == grid.len(),
        forall|i: int|
            0 <= i < grid.len() ==> (#[trigger] overlaid(grid, pattern, top, left)[i]).len()
                == grid[i].len(),
        forall|side: int| is_square(grid, side) ==> is_square(overlaid(grid, pattern, top, left), side),
{
}

/// What an overlay leaves at one position of the grid.
pub proof fn lemma_overlaid_at(
    grid: Seq<Seq<Bit>>,
    pattern: Seq<Seq<Bit>>,
    top: int,
    left: int,
    i: int,
    j: int,
)
    requires
        0 <= i < grid.len(),
        0 <= j < grid[i].len(),
    ensures
        overlaid(grid, pattern, top, left)[i][j] == if covers(pattern, top, left, i, j) {
            grid[i][j].merged(pattern[i - top][j - left])
        } else {
            grid[i][j]
        },
{
}

/// First writer wins: a module that is reserved before an overlay is the same
/// after it, whatever the pattern holds.
pub proof fn lemma_overlay_keeps_reserved(
    grid: Seq<Seq<Bit>>,
    pattern: Seq<Seq<Bit>>,
    top: int,
    left: int,
    i: int,
    j: int,
)
    requires
        0 <= i < grid.len(),
        0 <= j < grid[i].len(),
        grid[i][j].reserved,
    ensures
        overlaid(grid, pattern, top, left)[i][j] == grid[i][j],
{
}

/// A pattern laid over free modules shows through unchanged.
pub proof fn lemma_overlay_stamps_free(
    grid: Seq<Seq<Bit>>,
    pattern: Seq<Seq<Bit>>,
    top: int,
    left: int,
    i: int,
    j: int,
)
    requires
        0 <= i < grid.len(),
        0 <= j < grid[i].len(),
        covers(pattern, top, left, i, j),
        grid[i][j] == Bit::free(),
    ensures
        overlaid(grid, pattern, top, left)[i][j] == pattern[i - top][j - left],
{
}

/// Laying the same pattern at the same place twice is the same as laying it
/// once, provided every module of the pattern is reserved.
pub proof fn lemma_overlay_twice(grid: Seq<Seq<Bit>>, pattern: Seq<Seq<Bit>>, top: int, left: int)
    requires
        forall|r: int, c: int|
            0 <= r < pattern.len() && 0 <= c < pattern[r].len() ==> (#[trigger] pattern[r][c]).reserved,
    ensures
        overlaid(overlaid(grid, pattern, top, left), pattern, top, left) == overlaid(
            grid,
            pattern,
            top,
            left,
        ),
{
    let once = overlaid(grid, pattern, top, left);
    let twice = overlaid(once, pattern, top, left);
    assert forall|i: int| 0 <= i < grid.len() implies #[trigger] twice[i] =~= once[i] by {
        assert forall|j: int| 0 <= j < grid[i].len() implies twice[i][j] == once[i][j] by {
            if covers(pattern, top, left, i, j) {
                assert(pattern[i - top][j - left].reserved);
            }
        }
    }
    assert(twice =~= once);
}

} // verus!
