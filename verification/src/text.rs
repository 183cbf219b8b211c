use vstd::prelude::*;
use crate::bit::Bit;

verus! {

/// The two characters that stand for one module: blanks where the module is
/// on, full blocks where it is off.
pub open spec fn glyph(module: Bit) -> Seq<char> {
    if module.on {
        seq![' ', ' ']
    } else {
        seq!['\u{2588}', '\u{2588}']
    }
}

/// The glyphs of one row of modules, left to right, without a line break.
pub open spec fn glyphs(row: Seq<Bit>) -> Seq<char> {
    row.map_values(|module: Bit| glyph(module)).flatten()
}

/// One line of text for one row of modules: its glyphs and a line break.
pub open spec fn line(row: Seq<Bit>) -> Seq<char> {
    glyphs(row) + seq!['\n']
}

/// The text of a grid: one line for each row, top to bottom.
pub open spec fn text(grid: Seq<Seq<Bit>>) -> Seq<char> {
    grid.map_values(|row: Seq<Bit>| line(row)).flatten()
}

/// The glyphs of a row that is one module longer are the glyphs of the row
/// and then the glyph of that module.
pub proof fn lemma_glyphs_push(row: Seq<Bit>, module: Bit)
    ensures
        glyphs(row.push(module)) == glyphs(row) + glyph(module),
{
    let each = |module: Bit| glyph(module);
    assert(row.push(module).map_values(each) =~= row.map_values(each).push(glyph(module)));
    row.map_values(each).lemma_flatten_push(glyph(module));
}

/// The text of a grid that is one row longer is the text of the grid and
/// then the line of that row.
pub proof fn lemma_text_push(grid: Seq<Seq<Bit>>, row: Seq<Bit>)
    ensures
        text(grid.push(row)) == text(grid) + line(row),
{
    let each = |row: Seq<Bit>| line(row);
    assert(grid.push(row).map_values(each) =~= grid.map_values(each).push(line(row)));
    grid.map_values(each).lemma_flatten_push(line(row));
}

} // verus!
