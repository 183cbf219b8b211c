use vstd::prelude::*;
use crate::bit::Bit;
use crate::error::QRError;
use crate::overlay::{is_square, matrix_view, overlaid, overlaid_up_to};
use crate::pattern::{
    all_reserved, binary_pattern, finder_dark, finder_template, horizontal_stripe, timing_module,
    vertical_stripe, FINDER_PATTERN_SIZE,
};
use crate::symbol::{
    blank_grid, in_quiet_zone, lemma_composition, size_of_version, skeleton, symbol_module,
    valid_size, valid_version, with_finders, with_timing, MAX_VERSION, QUIET_ZONE_WIDTH,
    TIMING_PATTERN_OFFSET, VERSION_1_SIZE,
};
use crate::text::{glyphs, lemma_glyphs_push, lemma_text_push, text};
use std::ops::AddAssign;
use vstd::string::StringExecFns;

verus! {

/// The grid of a symbol: `size` by `size` modules with a quiet zone of four
/// modules on every side.
#[derive(Debug)]
pub struct QRCode {
    size: usize,
    bits: Vec<Vec<Bit>>,
}

impl View for QRCode {
    type V = Seq<Seq<Bit>>;

    /// The rows of the whole grid, quiet zone included.
    closed spec fn view(&self) -> Seq<Seq<Bit>> {
        matrix_view(self.bits)
    }
}

/// A fragment to be laid over a grid: `size` by `size` reserved modules, with
/// no quiet zone of its own.
struct Pattern {
    size: usize,
    bits: Vec<Vec<Bit>>,
}

impl View for Pattern {
    type V = Seq<Seq<Bit>>;

    closed spec fn view(&self) -> Seq<Seq<Bit>> {
        matrix_view(self.bits)
    }
}

impl Pattern {
    /// The pattern is a square of `size` modules per side, and every module
    /// of it is reserved.
    #[verifier::type_invariant]
    spec fn well_formed(self) -> bool {
        &&& is_square(matrix_view(self.bits), self.size as int)
        &&& all_reserved(matrix_view(self.bits))
    }
}

/// The blank grid while its quiet zone is being marked: the first `rows` rows
/// are done, and of the row after them the first `cols` modules.
spec fn marked_up_to(full_size: int, rows: int, cols: int) -> Seq<Seq<Bit>> {
    Seq::new(
        full_size as nat,
        |i: int|
            Seq::new(
                full_size as nat,
                |j: int|
                    Bit {
                        on: false,
                        reserved: (i < rows || (i == rows && j < cols)) && in_quiet_zone(
                            i,
                            j,
                            full_size,
                        ),
                    },
            ),
    )
}

/// The module at `(i, j)` of a matrix, to be written to. The matrix changes
/// at that position alone, to whatever is written.
fn module_mut(matrix: &mut Vec<Vec<Bit>>, i: usize, j: usize) -> (module: &mut Bit)
    requires
        i < old(matrix).len(),
        j < old(matrix)[i as int].len(),
    ensures
        *module == matrix_view(*old(matrix))[i as int][j as int],
        matrix_view(*final(matrix)) == matrix_view(*old(matrix)).update(
            i as int,
            matrix_view(*old(matrix))[i as int].update(j as int, *final(module)),
        ),
    no_unwind
{
    &mut matrix[i][j]
}

impl QRCode {
    /// `size` is the size of one of the forty versions, and the grid is a
    /// square of `size + 8` modules per side.
    #[verifier::type_invariant]
    spec fn well_formed(self) -> bool {
        &&& valid_size(self.size as int)
        &&& is_square(matrix_view(self.bits), self.size + 8)
    }

    /// Modules per side, the quiet zone not counted.
    pub closed spec fn spec_size(&self) -> int {
        self.size as int
    }

    /// Whether this is the finished grid of the symbol of `version`.
    pub open spec fn is_symbol_of(&self, version: int) -> bool {
        &&& valid_version(version)
        &&& self.spec_size() == size_of_version(version)
        &&& self@ == skeleton(size_of_version(version))
    }

    /// The finished grid of the symbol of `version`: the quiet zone, the
    /// three finder patterns and the two timing stripes. Versions run from 1
    /// to 40; any other is turned down with `InvalidVersion`.
    pub fn new(version: u8) -> (result: Result<QRCode, QRError>)
        ensures
            (match result {
                Ok(qr_code) => {
                    &&& valid_version(version as int)
                    &&& qr_code.is_symbol_of(version as int)
                    &&& is_square(qr_code@, qr_code.spec_size() + 8)
                },
                Err(error) => !valid_version(version as int) && error == QRError::InvalidVersion,
            }),
    {
        if version < 1 || version > MAX_VERSION {
            return Err(QRError::InvalidVersion);
        }
        let size = QRCode::calc_size(version);
        let mut qr_code = QRCode {
            size,
            bits: QRCode::build_empty_matrix(size + QUIET_ZONE_WIDTH * 2),
        };
        qr_code.apply_finder_patterns();
        qr_code.apply_timing_patterns();
        proof {
            lemma_composition(size as int);
        }
        Ok(qr_code)
    }

    /// Modules per side of the symbol of `version`, the quiet zone not
    /// counted.
    pub fn calc_size(version: u8) -> (size: usize)
        ensures
            size == size_of_version(version as int),
    {
        version as usize * 4 + (VERSION_1_SIZE as usize - 4)
    }

    /// A grid of `full_size` by `full_size` light modules, reserved exactly in
    /// the quiet zone.
    pub fn build_empty_matrix(full_size: usize) -> (matrix: Vec<Vec<Bit>>)
        ensures
            matrix_view(matrix) == blank_grid(full_size as int),
    {
        let row = vec![Bit { on: false, reserved: false }; full_size];
        let mut matrix = vec![row; full_size];
        assert(matrix_view(matrix) =~~= marked_up_to(full_size as int, 0, 0));

        for y in 0..full_size
            invariant
                matrix_view(matrix) =~~= marked_up_to(full_size as int, y as int, 0),
        {
            for x in 0..full_size
                invariant
                    y < full_size,
                    matrix_view(matrix) =~~= marked_up_to(full_size as int, y as int, x as int),
            {
                let ghost before = matrix_view(matrix);
                assert(before.len() == full_size);
                assert(before[y as int].len() == full_size);
                if QRCode::is_quiet_zone(y, x, full_size) {
                    matrix[y][x].reserved = true;
                    assert(matrix_view(matrix) =~~= before.update(
                        y as int,
                        before[y as int].update(x as int, Bit { on: false, reserved: true }),
                    ));
                }
            }
        }
        assert(matrix_view(matrix) =~~= blank_grid(full_size as int));
        matrix
    }

    /// Whether grid position `(row, col)` lies in the quiet zone of a grid of
    /// `full_size` modules per side.
    pub fn is_quiet_zone(row: usize, col: usize, full_size: usize) -> (quiet: bool)
        ensures
            quiet == in_quiet_zone(row as int, col as int, full_size as int),
    {
        row < QUIET_ZONE_WIDTH || full_size < QUIET_ZONE_WIDTH || row >= full_size
            - QUIET_ZONE_WIDTH || col < QUIET_ZONE_WIDTH || col >= full_size - QUIET_ZONE_WIDTH
    }

    /// Lays the finder template at the top left, the top right and the bottom
    /// left corner, in that order.
    fn apply_finder_patterns(&mut self)
        ensures
            final(self)@ == with_finders(old(self)@, old(self).spec_size()),
            final(self).spec_size() == old(self).spec_size(),
    {
        proof {
            use_type_invariant(&*self);
        }
        let finder_pattern = QRCode::finder_pattern();
        let finder_pattern = QRCode::build_qr_code_from_pattern(finder_pattern.as_slice());
        let finder_pattern_offsets = QRCode::get_finder_pattern_offsets(self.size);

        let (y_offset, x_offset) = finder_pattern_offsets[0];
        self.add(&finder_pattern, x_offset, y_offset);
        let (y_offset, x_offset) = finder_pattern_offsets[1];
        self.add(&finder_pattern, x_offset, y_offset);
        let (y_offset, x_offset) = finder_pattern_offsets[2];
        self.add(&finder_pattern, x_offset, y_offset);
    }

    /// Where the finder template goes in a symbol of `size` modules per side,
    /// as grid row and grid column of the template's first module: top left,
    /// top right, bottom left.
    pub fn get_finder_pattern_offsets(size: usize) -> (offsets: [(usize, usize); 3])
        requires
            size >= FINDER_PATTERN_SIZE,
        ensures
            offsets@ == seq![
                (3usize, 3usize),
                (3usize, (size - 7 + 3) as usize),
                ((size - 7 + 3) as usize, 3usize),
            ],
    {
        let offset = size - FINDER_PATTERN_SIZE;
        let offsets = [(3, 3), (3, offset + 3), (offset + 3, 3)];
        assert(offsets@ =~= seq![
            (3usize, 3usize),
            (3usize, (size - 7 + 3) as usize),
            ((size - 7 + 3) as usize, 3usize),
        ]);
        offsets
    }

    /// The finder template as a matrix of zeros and ones: nine rows of nine
    /// entries, one where the template is dark.
    pub fn finder_pattern() -> (pattern: Vec<Vec<u8>>)
        ensures
            pattern.len() == 9,
            forall|r: int| 0 <= r < 9 ==> (#[trigger] pattern[r]).len() == 9,
            forall|r: int, c: int|
                0 <= r < 9 && 0 <= c < 9 ==> #[trigger] pattern[r][c] == if finder_dark(r, c) {
                    1u8
                } else {
                    0u8
                },
            binary_pattern(pattern@) == finder_template(),
    {
        let pattern = vec![
            vec![0, 0, 0, 0, 0, 0, 0, 0, 0],
            vec![0, 1, 1, 1, 1, 1, 1, 1, 0],
            vec![0, 1, 0, 0, 0, 0, 0, 1, 0],
            vec![0, 1, 0, 1, 1, 1, 0, 1, 0],
            vec![0, 1, 0, 1, 1, 1, 0, 1, 0],
            vec![0, 1, 0, 1, 1, 1, 0, 1, 0],
            vec![0, 1, 0, 0, 0, 0, 0, 1, 0],
            vec![0, 1, 1, 1, 1, 1, 1, 1, 0],
            vec![0, 0, 0, 0, 0, 0, 0, 0, 0],
        ];
        assert(binary_pattern(pattern@) =~~= finder_template());
        pattern
    }

    /// Lays `other` over the grid, its first module at grid row `y_offset`
    /// and grid column `x_offset`.
    fn add(&mut self, other: &Pattern, x_offset: usize, y_offset: usize)
        requires
            y_offset + other.size <= old(self).spec_size() + 8,
            x_offset + other.size <= old(self).spec_size() + 8,
        ensures
            final(self)@ == overlaid(old(self)@, other@, y_offset as int, x_offset as int),
            final(self).spec_size() == old(self).spec_size(),
    {
        proof {
            use_type_invariant(&*self);
            use_type_invariant(other);
        }
        let len = other.size;
        let ghost top = y_offset as int;
        let ghost left = x_offset as int;
        assert(self@ =~~= overlaid_up_to(old(self)@, other@, top, left, 0, 0));
        for row in 0..len
            invariant
                len == other.size,
                top == y_offset,
                left == x_offset,
                self.size == old(self).size,
                y_offset + len <= self.size + 8,
                x_offset + len <= self.size + 8,
                is_square(old(self)@, self.size + 8),
                is_square(other@, len as int),
                self@ =~~= overlaid_up_to(old(self)@, other@, top, left, row as int, 0),
        {
            for col in 0..len
                invariant
                    row < len,
                    len == other.size,
                    top == y_offset,
                    left == x_offset,
                    self.size == old(self).size,
                    y_offset + len <= self.size + 8,
                    x_offset + len <= self.size + 8,
                    is_square(old(self)@, self.size + 8),
                    is_square(other@, len as int),
                    self@ =~~= overlaid_up_to(old(self)@, other@, top, left, row as int, col as int),
            {
                proof {
                    use_type_invariant(&*self);
                }
                let ghost before = self@;
                assert(before[row + top].len() == self.size + 8);
                assert(other@[row as int].len() == len);
                module_mut(&mut self.bits, row + y_offset, col + x_offset).add_assign(
                    other.bits[row][col],
                );
                assert(self@ =~~= overlaid_up_to(old(self)@, other@, top, left, row as int, col + 1));
            }
            assert(self@ =~~= overlaid_up_to(old(self)@, other@, top, left, row + 1, 0));
        }
        assert(self@ =~~= overlaid(old(self)@, other@, top, left));
    }

    /// The square pattern that a square matrix of zeros and ones stands for.
    fn build_qr_code_from_pattern(pattern: &[Vec<u8>]) -> (template: Pattern)
        requires
            forall|r: int| 0 <= r < pattern.len() ==> (#[trigger] pattern[r]).len() == pattern.len(),
        ensures
            template@ == binary_pattern(pattern@),
            template.size == pattern.len(),
    {
        Pattern { size: pattern.len(), bits: QRCode::build_matrix_from_binary_pattern(pattern) }
    }

    /// The pattern that a matrix of zeros and ones stands for, as a matrix of
    /// modules: each of them reserved, and dark where the entry is one.
    pub fn build_matrix_from_binary_pattern(pattern: &[Vec<u8>]) -> (matrix: Vec<Vec<Bit>>)
        ensures
            matrix_view(matrix) == binary_pattern(pattern@),
    {
        let mut matrix: Vec<Vec<Bit>> = Vec::new();
        for r in 0..pattern.len()
            invariant
                matrix_view(matrix) =~~= binary_pattern(pattern@.take(r as int)),
        {
            let entries = &pattern[r];
            let mut row: Vec<Bit> = Vec::new();
            for c in 0..entries.len()
                invariant
                    row@ =~= Seq::new(
                        c as nat,
                        |k: int| Bit { on: entries@[k] == 1, reserved: true },
                    ),
            {
                row.push(Bit { on: entries[c] == 1, reserved: true });
            }
            let ghost before = matrix_view(matrix);
            matrix.push(row);
            assert(matrix_view(matrix) =~~= before.push(row@));
            assert(binary_pattern(pattern@.take(r + 1)) =~~= binary_pattern(
                pattern@.take(r as int),
            ).push(row@));
        }
        assert(pattern@.take(pattern.len() as int) =~= pattern@);
        matrix
    }

    /// Lays the horizontal timing stripe on symbol row 6, then the vertical
    /// one on symbol column 6.
    fn apply_timing_patterns(&mut self)
        ensures
            final(self)@ == with_timing(old(self)@, old(self).spec_size()),
            final(self).spec_size() == old(self).spec_size(),
    {
        proof {
            use_type_invariant(&*self);
        }
        self.apply_horizontal_timing_pattern(TIMING_PATTERN_OFFSET);
        self.apply_vertical_timing_pattern(TIMING_PATTERN_OFFSET);
    }

    /// Lays the horizontal timing stripe on symbol row `row`: it starts dark
    /// at symbol column 0 and alternates from there.
    fn apply_horizontal_timing_pattern(&mut self, row: usize)
        requires
            row < old(self).spec_size(),
        ensures
            final(self)@ == overlaid(
                old(self)@,
                horizontal_stripe(old(self).spec_size()),
                row + 4,
                4,
            ),
            final(self).spec_size() == old(self).spec_size(),
    {
        let ghost stripe = horizontal_stripe(self.spec_size());
        let ghost top = row + 4;
        proof {
            use_type_invariant(&*self);
        }
        assert(self@ =~~= overlaid_up_to(old(self)@, stripe, top, 4, 0, 0));
        let size = self.size;
        for col in 0..size
            invariant
                size == self.size,
                self.size == old(self).size,
                row < self.size,
                top == row + 4,
                stripe == horizontal_stripe(self.spec_size()),
                is_square(old(self)@, self.size + 8),
                self@ =~~= overlaid_up_to(old(self)@, stripe, top, 4, 0, col as int),
        {
            let ghost before = self@;
            self.set(row, col).add_assign(Bit { on: col % 2 == 0, reserved: true });
            assert(before[top].len() == self.size + 8);
            assert(stripe[0][col as int] == timing_module(col as int));
            assert(self@ =~~= overlaid_up_to(old(self)@, stripe, top, 4, 0, col + 1));
        }
        assert(self@ =~~= overlaid(old(self)@, stripe, top, 4));
    }

    /// Lays the vertical timing stripe on symbol column `col`: it starts dark
    /// at symbol row 0 and alternates from there.
    fn apply_vertical_timing_pattern(&mut self, col: usize)
        requires
            col < old(self).spec_size(),
        ensures
            final(self)@ == overlaid(
                old(self)@,
                vertical_stripe(old(self).spec_size()),
                4,
                col + 4,
            ),
            final(self).spec_size() == old(self).spec_size(),
    {
        let ghost stripe = vertical_stripe(self.spec_size());
        let ghost left = col + 4;
        proof {
            use_type_invariant(&*self);
        }
        assert(self@ =~~= overlaid_up_to(old(self)@, stripe, 4, left, 0, 0));
        let size = self.size;
        for row in 0..size
            invariant
                size == self.size,
                self.size == old(self).size,
                col < self.size,
                left == col + 4,
                stripe == vertical_stripe(self.spec_size()),
                is_square(old(self)@, self.size + 8),
                self@ =~~= overlaid_up_to(old(self)@, stripe, 4, left, row as int, 0),
        {
            let ghost before = self@;
            self.set(row, col).add_assign(Bit { on: row % 2 == 0, reserved: true });
            assert(before[row + 4].len() == self.size + 8);
            assert(stripe[row as int][0] == timing_module(row as int));
            assert(self@ =~~= overlaid_up_to(old(self)@, stripe, 4, left, row + 1, 0));
        }
        assert(self@ =~~= overlaid(old(self)@, stripe, 4, left));
    }

    /// The module at symbol position `(row, col)`, which is grid position
    /// `(row + 4, col + 4)`.
    pub fn at(&self, row: usize, col: usize) -> (module: &Bit)
        requires
            row < self.spec_size(),
            col < self.spec_size(),
        ensures
            *module == self@[row + 4][col + 4],
    {
        proof {
            use_type_invariant(self);
            assert(matrix_view(self.bits)[row + 4].len() == self.size + 8);
        }
        &self.bits[row + QUIET_ZONE_WIDTH][col + QUIET_ZONE_WIDTH]
    }

    /// The module at symbol position `(row, col)`, to be written to. The grid
    /// changes at that position alone, to whatever is written.
    fn set(&mut self, row: usize, col: usize) -> (module: &mut Bit)
        requires
            row < old(self).spec_size(),
            col < old(self).spec_size(),
        ensures
            *module == old(self)@[row + 4][col + 4],
            final(self)@ == old(self)@.update(
                row + 4,
                old(self)@[row + 4].update(col + 4, *final(module)),
            ),
            final(self).spec_size() == old(self).spec_size(),
    {
        proof {
            use_type_invariant(&*self);
            assert(matrix_view(self.bits)[row + 4].len() == self.size + 8);
        }
        module_mut(&mut self.bits, row + QUIET_ZONE_WIDTH, col + QUIET_ZONE_WIDTH)
    }

    /// The module at symbol position `(row, col)`, or `IndexOutOfRange` where
    /// the symbol has no such position.
    pub fn module_at(&self, row: usize, col: usize) -> (result: Result<Bit, QRError>)
        ensures
            result == if row < self.spec_size() && col < self.spec_size() {
                Ok::<Bit, QRError>(self@[row + 4][col + 4])
            } else {
                Err::<Bit, QRError>(QRError::IndexOutOfRange)
            },
    {
        if row < self.size && col < self.size {
            Ok(*self.at(row, col))
        } else {
            Err(QRError::IndexOutOfRange)
        }
    }

    /// Modules per side, the quiet zone not counted. It is the size of one of
    /// the forty versions, and the grid has eight modules more per side.
    pub fn size(&self) -> (size: usize)
        ensures
            size == self.spec_size(),
            valid_size(size as int),
            is_square(self@, size + 8),
    {
        proof {
            use_type_invariant(self);
        }
        self.size
    }

    /// The rows of the whole grid, quiet zone included: `size + 8` rows of
    /// `size + 8` modules.
    pub fn bits(&self) -> (rows: &Vec<Vec<Bit>>)
        ensures
            matrix_view(*rows) == self@,
            rows.len() == self.spec_size() + 8,
            forall|i: int|
                0 <= i < rows.len() ==> (#[trigger] rows[i]).len() == self.spec_size() + 8,
    {
        proof {
            use_type_invariant(self);
            assert forall|i: int| 0 <= i < self.bits.len() implies (#[trigger] self.bits[i]).len()
                == self.size + 8 by {
                assert(matrix_view(self.bits)[i].len() == self.size + 8);
            }
        }
        &self.bits
    }

    /// The grid as text: for each row of the whole grid, top to bottom, two
    /// blanks for a module that is on and two full blocks for one that is
    /// off, and a line break after the row.
    pub fn render(&self) -> (buffer: String)
        ensures
            buffer@ == text(self@),
    {
        let mut buffer = String::new();
        assert(self@.take(0) =~= Seq::<Seq<Bit>>::empty());
        for y in 0..self.bits.len()
            invariant
                buffer@ == text(self@.take(y as int)),
        {
            let row = &self.bits[y];
            let ghost done = buffer@;
            assert(row@.take(0) =~= Seq::<Bit>::empty());
            for x in 0..row.len()
                invariant
                    buffer@ == done + glyphs(row@.take(x as int)),
            {
                proof {
                    reveal_strlit("  ");
                    reveal_strlit("\u{2588}\u{2588}");
                    lemma_glyphs_push(row@.take(x as int), row@[x as int]);
                    assert(row@.take(x as int).push(row@[x as int]) =~= row@.take(x + 1));
                }
                if row[x].on {
                    buffer.append("  ");
                } else {
                    buffer.append("\u{2588}\u{2588}");
                }
            }
            proof {
                reveal_strlit("\n");
                assert(row@.take(row.len() as int) =~= row@);
                lemma_text_push(self@.take(y as int), row@);
                assert(self@.take(y as int).push(row@) =~= self@.take(y + 1));
            }
            buffer.append("\n");
        }
        assert(self@.take(self.bits.len() as int) =~= self@);
        buffer
    }

    /// Two finished grids of one version are the same, module for module.
    pub proof fn lemma_same_version_same_grid(first: QRCode, second: QRCode, version: int)
        requires
            first.is_symbol_of(version),
            second.is_symbol_of(version),
        ensures
            first.spec_size() == second.spec_size(),
            first@ == second@,
    {
    }

    /// What a finished grid looks like: it has eight modules more per side
    /// than the symbol, its quiet zone is light and reserved throughout, and
    /// it holds the symbol's module four rows and four columns in from each
    /// symbol position.
    pub proof fn lemma_finished_grid(&self, version: int)
        requires
            self.is_symbol_of(version),
        ensures
            is_square(self@, self.spec_size() + 8),
            forall|i: int, j: int|
                0 <= i < self.spec_size() + 8 && 0 <= j < self.spec_size() + 8 && in_quiet_zone(
                    i,
                    j,
                    self.spec_size() + 8,
                ) ==> #[trigger] self@[i][j] == (Bit { on: false, reserved: true }),
            forall|row: int, col: int|
                0 <= row < self.spec_size() && 0 <= col < self.spec_size() ==> self@[row + 4][col
                    + 4] == #[trigger] symbol_module(self.spec_size(), row, col),
    {
    }
}

} // verus!
