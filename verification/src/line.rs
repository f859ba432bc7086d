//! Drawing glyphs and single lines of text.

use vstd::prelude::*;
use crate::canvas::{Canvas, CanvasModel};
use crate::color::{ink, ink_color, paper, paper_color, Color};
use crate::glyph::{is_pattern, pattern_columns, pattern_dot};
use crate::mapper::{is_glyph_table, CharPixelsMapper};
use crate::raster::lemma_supported_size_is_small;

verus! {

/// Pixel columns a space takes up.
pub const SPACE_WIDTH: u32 = 2;

/// Blank pixel columns that follow every glyph.
pub const GLYPH_GAP: u32 = 1;

/// The colour of a dot.
pub open spec fn dot_color(on: bool) -> Color {
    if on {
        ink_color()
    } else {
        paper_color()
    }
}

/// Whether position `p` lies in the cell block of a glyph of `columns`
/// columns whose upper left corner is `(x, y)`.
pub open spec fn in_glyph_box(canvas: CanvasModel, p: (int, int), columns: int, x: int, y: int) -> bool {
    x <= p.0 < x + columns && y <= p.1 < y + canvas.letter_height
}

/// Whether the cell block of the glyph `bits`, put at `(x, y)`, lies on the
/// canvas. A glyph without columns has no cells and fits anywhere.
pub open spec fn glyph_fits(canvas: CanvasModel, bits: Seq<u8>, x: int, y: int) -> bool {
    pattern_columns(bits) > 0 ==> 0 <= x && 0 <= y && x + pattern_columns(bits) <= canvas.width && y
        + canvas.letter_height <= canvas.height
}

/// The canvas after the glyph `bits` has been put at `(x, y)`: every cell of
/// its block shows the glyph's dot, on or off, and every other pixel is as
/// it was.
pub open spec fn with_glyph(canvas: CanvasModel, bits: Seq<u8>, x: int, y: int) -> CanvasModel {
    CanvasModel {
        pixels: Map::new(
            |p: (int, int)| canvas.pixels.contains_key(p),
            |p: (int, int)|
                if in_glyph_box(canvas, p, pattern_columns(bits), x, y) {
                    dot_color(pattern_dot(bits, p.1 - y, p.0 - x))
                } else {
                    canvas.pixels[p]
                },
        ),
        ..canvas
    }
}

/// Puts the glyph of `ch` on the canvas with its upper left corner at
/// `(start_x, start_y)`, and returns where the next glyph starts: one blank
/// column past this one.
pub fn draw_pixels(
    canvas: &mut Canvas,
    char_pixels_mapper: &CharPixelsMapper,
    ch: char,
    start_x: u32,
    start_y: u32,
) -> (next_x: u32)
    requires
        old(canvas).wf(),
        char_pixels_mapper.wf(),
        char_pixels_mapper@.contains_key(ch),
        glyph_fits(old(canvas)@, char_pixels_mapper@[ch], start_x as int, start_y as int),
        start_x + pattern_columns(char_pixels_mapper@[ch]) + GLYPH_GAP <= u32::MAX,
    ensures
        final(canvas)@ == with_glyph(
            old(canvas)@,
            char_pixels_mapper@[ch],
            start_x as int,
            start_y as int,
        ),
        final(canvas).wf(),
        next_x == start_x + pattern_columns(char_pixels_mapper@[ch]) + GLYPH_GAP,
{
    let pattern = char_pixels_mapper.lookup(ch).unwrap();
    let ghost bits = pattern@;
    let ghost before = canvas@;
    let columns: usize = pattern.columns();
    let rows: u32 = canvas.letter_height();
    if columns == 0 {
        assert(canvas@.pixels =~= with_glyph(before, bits, start_x as int, start_y as int).pixels);
        return start_x + GLYPH_GAP;
    }
    proof {
        lemma_supported_size_is_small(before.width, before.height);
    }
    let mut col: usize = 0;
    while col < columns
        invariant
            canvas.wf(),
            before.width < 0x4000_0000,
            before.height < 0x4000_0000,
            canvas@.same_geometry(before),
            before.wf(),
            is_pattern(bits),
            pattern@ == bits,
            pattern.wf(),
            columns == pattern_columns(bits),
            rows == before.letter_height,
            0 < columns,
            start_x + columns <= before.width,
            start_y + rows <= before.height,
            col <= columns,
            forall|p: (int, int)| #[trigger]
                before.pixels.contains_key(p) ==> canvas@.pixels[p] == if in_glyph_box(
                    before,
                    p,
                    col as int,
                    start_x as int,
                    start_y as int,
                ) {
                    dot_color(pattern_dot(bits, p.1 - start_y, p.0 - start_x))
                } else {
                    before.pixels[p]
                },
        decreases columns - col,
    {
        let x: u32 = start_x + col as u32;
        let mut row: u32 = 0;
        while row < rows
            invariant
                canvas.wf(),
                before.width < 0x4000_0000,
                before.height < 0x4000_0000,
                canvas@.same_geometry(before),
                before.wf(),
                is_pattern(bits),
                pattern@ == bits,
                pattern.wf(),
                columns == pattern_columns(bits),
                rows == before.letter_height,
                start_x + columns <= before.width,
                start_y + rows <= before.height,
                col < columns,
                x == start_x + col,
                row <= rows,
                forall|p: (int, int)| #[trigger]
                    before.pixels.contains_key(p) ==> canvas@.pixels[p] == if in_glyph_box(
                        before,
                        p,
                        col as int,
                        start_x as int,
                        start_y as int,
                    ) || (p.0 == x && start_y <= p.1 < start_y + row) {
                        dot_color(pattern_dot(bits, p.1 - start_y, p.0 - start_x))
                    } else {
                        before.pixels[p]
                    },
            decreases rows - row,
        {
            let color = if pattern.dot(row as usize, col) {
                ink()
            } else {
                paper()
            };
            canvas.set_pixel(x, start_y + row, color);
            row += 1;
        }
        col += 1;
    }
    assert(canvas@.pixels =~= with_glyph(before, bits, start_x as int, start_y as int).pixels);
    start_x + columns as u32 + GLYPH_GAP
}

/// Whether `c` is drawn with a glyph of `table`. Spaces and line-end
/// characters never are, whatever the table holds.
pub open spec fn draws_glyph(table: Map<char, Seq<u8>>, c: char) -> bool {
    c != ' ' && c != '\n' && c != '\r' && table.contains_key(c)
}

/// How far `c` moves the cursor to the right.
pub open spec fn char_advance(table: Map<char, Seq<u8>>, c: char) -> int {
    if c == ' ' {
        SPACE_WIDTH as int
    } else if draws_glyph(table, c) {
        pattern_columns(table[c]) + GLYPH_GAP
    } else {
        0
    }
}

/// Where the cursor stands after `line`, drawn from `start_x` on.
pub open spec fn line_end(table: Map<char, Seq<u8>>, line: Seq<char>, start_x: int) -> int
    decreases line.len(),
{
    if line.len() == 0 {
        start_x
    } else {
        line_end(table, line.drop_last(), start_x) + char_advance(table, line.last())
    }
}

/// The canvas after `line` has been drawn from `(start_x, start_y)` on: each
/// character that has a glyph is put where the cursor stands when its turn
/// comes.
pub open spec fn with_line(
    table: Map<char, Seq<u8>>,
    canvas: CanvasModel,
    line: Seq<char>,
    start_x: int,
    start_y: int,
) -> CanvasModel
    decreases line.len(),
{
    if line.len() == 0 {
        canvas
    } else {
        let before = with_line(table, canvas, line.drop_last(), start_x, start_y);
        if draws_glyph(table, line.last()) {
            with_glyph(
                before,
                table[line.last()],
                line_end(table, line.drop_last(), start_x),
                start_y,
            )
        } else {
            before
        }
    }
}

/// Whether `line` can be drawn from `(start_x, start_y)` on: every glyph
/// lands on the canvas, and the cursor stays a 32-bit number.
pub open spec fn line_fits(
    table: Map<char, Seq<u8>>,
    canvas: CanvasModel,
    line: Seq<char>,
    start_x: int,
    start_y: int,
) -> bool {
    &&& line_end(table, line, start_x) <= u32::MAX
    &&& forall|i: int|
        0 <= i < line.len() && draws_glyph(table, #[trigger] line[i]) ==> glyph_fits(
            canvas,
            table[line[i]],
            line_end(table, line.take(i), start_x),
            start_y,
        )
}

/// The cursor never moves left: a prefix of a line ends no further right
/// than the line.
pub proof fn lemma_line_end_monotonic(
    table: Map<char, Seq<u8>>,
    line: Seq<char>,
    start_x: int,
    k: int,
)
    requires
        0 <= k <= line.len(),
    ensures
        start_x <= line_end(table, line.take(k), start_x) <= line_end(table, line, start_x),
    decreases line.len(),
{
    if line.len() == 0 {
        assert(line.take(k) =~= line);
    } else if k == line.len() {
        assert(line.take(k) =~= line);
        lemma_line_end_monotonic(table, line.drop_last(), start_x, 0);
        assert(line.drop_last().take(0) =~= Seq::<char>::empty());
    } else {
        lemma_line_end_monotonic(table, line.drop_last(), start_x, k);
        assert(line.drop_last().take(k) =~= line.take(k));
    }
}

/// Drawing a line changes pixels only: size and layout constants stay, and
/// so does the set of positions.
pub proof fn lemma_with_line_keeps_geometry(
    table: Map<char, Seq<u8>>,
    canvas: CanvasModel,
    line: Seq<char>,
    start_x: int,
    start_y: int,
)
    ensures
        with_line(table, canvas, line, start_x, start_y).same_geometry(canvas),
        with_line(table, canvas, line, start_x, start_y).pixels.dom() == canvas.pixels.dom(),
    decreases line.len(),
{
    if line.len() > 0 {
        lemma_with_line_keeps_geometry(table, canvas, line.drop_last(), start_x, start_y);
        let before = with_line(table, canvas, line.drop_last(), start_x, start_y);
        let after = with_line(table, canvas, line, start_x, start_y);
        assert(after.pixels.dom() =~= before.pixels.dom());
    }
}

/// One more character at the end of a line: the cursor and the canvas
/// after the longer line, from those after the shorter one.
proof fn lemma_line_step(
    table: Map<char, Seq<u8>>,
    canvas: CanvasModel,
    line: Seq<char>,
    start_x: int,
    start_y: int,
    i: int,
)
    requires
        0 <= i < line.len(),
    ensures
        line_end(table, line.take(i + 1), start_x) == line_end(table, line.take(i), start_x)
            + char_advance(table, line[i]),
        with_line(table, canvas, line.take(i + 1), start_x, start_y) == if draws_glyph(
            table,
            line[i],
        ) {
            with_glyph(
                with_line(table, canvas, line.take(i), start_x, start_y),
                table[line[i]],
                line_end(table, line.take(i), start_x),
                start_y,
            )
        } else {
            with_line(table, canvas, line.take(i), start_x, start_y)
        },
{
    assert(line.take(i + 1).drop_last() =~= line.take(i));
    assert(line.take(i + 1).last() == line[i]);
}

/// Draws `line` from `(start_x, start_y)` on and returns where the cursor
/// ends. A space moves the cursor two columns; a character with a glyph is
/// drawn and moves it past the glyph and one blank column; every other
/// character is left out.
pub fn draw_text_line(
    canvas: &mut Canvas,
    char_pixels_mapper: &CharPixelsMapper,
    line: &str,
    start_x: u32,
    start_y: u32,
) -> (end_x: u32)
    requires
        old(canvas).wf(),
        char_pixels_mapper.wf(),
        line_fits(char_pixels_mapper@, old(canvas)@, line@, start_x as int, start_y as int),
    ensures
        final(canvas)@ == with_line(
            char_pixels_mapper@,
            old(canvas)@,
            line@,
            start_x as int,
            start_y as int,
        ),
        final(canvas).wf(),
        final(canvas)@.same_geometry(old(canvas)@),
        end_x == line_end(char_pixels_mapper@, line@, start_x as int),
{
    broadcast use vstd::string::group_string_axioms;

    let ghost table = char_pixels_mapper@;
    let ghost before = canvas@;
    let mut current_x: u32 = start_x;
    for c in it: line.chars()
        invariant
            it.seq() == line@,
            canvas.wf(),
            char_pixels_mapper.wf(),
            table == char_pixels_mapper@,
            canvas@.same_geometry(before),
            line_fits(table, before, line@, start_x as int, start_y as int),
            current_x == line_end(table, line@.take(it.index()), start_x as int),
            canvas@ == with_line(table, before, line@.take(it.index()), start_x as int, start_y as int),
    {
        let ghost i = it.index();
        proof {
            lemma_line_step(table, before, line@, start_x as int, start_y as int, i);
            lemma_line_end_monotonic(table, line@, start_x as int, i + 1);
        }
        if c == ' ' {
            current_x += SPACE_WIDTH;
        } else if c == '\n' || c == '\r' {
        } else if char_pixels_mapper.lookup(c).is_some() {
            assert(draws_glyph(table, line@[i]));
            current_x = draw_pixels(canvas, char_pixels_mapper, c, current_x, start_y);
        }
    }
    assert(line@.take(line@.len() as int) =~= line@);
    current_x
}

/// Whether the glyph `bits` can be put at `(x, y)`.
fn glyph_has_room(canvas: &Canvas, columns: usize, x: u32, y: u32) -> (fits: bool)
    requires
        canvas.wf(),
    ensures
        fits == (columns > 0 ==> x + columns <= canvas@.width && y + canvas@.letter_height
            <= canvas@.height),
{
    if columns == 0 {
        return true;
    }
    let width: u64 = canvas.width() as u64;
    let height: u64 = canvas.height() as u64;
    let rows: u64 = canvas.letter_height() as u64;
    if columns as u64 > width {
        return false;
    }
    x as u64 + columns as u64 <= width && y as u64 + rows <= height
}

/// Follows `line` from `(start_x, start_y)` on without drawing anything.
/// Returns where the cursor would end, or `None` where the line cannot be
/// drawn there.
pub fn line_extent(
    canvas: &Canvas,
    char_pixels_mapper: &CharPixelsMapper,
    line: &str,
    start_x: u32,
    start_y: u32,
) -> (extent: Option<u32>)
    requires
        canvas.wf(),
        char_pixels_mapper.wf(),
    ensures
        extent is Some <==> line_fits(
            char_pixels_mapper@,
            canvas@,
            line@,
            start_x as int,
            start_y as int,
        ),
        extent is Some ==> extent->0 == line_end(char_pixels_mapper@, line@, start_x as int),
{
    broadcast use vstd::string::group_string_axioms;

    let ghost table = char_pixels_mapper@;
    let ghost x0 = start_x as int;
    let ghost y0 = start_y as int;
    let mut current_x: u32 = start_x;
    for c in it: line.chars()
        invariant
            it.seq() == line@,
            canvas.wf(),
            char_pixels_mapper.wf(),
            table == char_pixels_mapper@,
            x0 == start_x,
            y0 == start_y,
            current_x == line_end(table, line@.take(it.index()), x0),
            forall|j: int|
                0 <= j < it.index() && draws_glyph(table, #[trigger] line@[j]) ==> glyph_fits(
                    canvas@,
                    table[line@[j]],
                    line_end(table, line@.take(j), x0),
                    y0,
                ),
    {
        let ghost i = it.index();
        proof {
            lemma_line_step(table, canvas@, line@, x0, y0, i);
            lemma_line_end_monotonic(table, line@, x0, i + 1);
        }
        let step: usize = if c == ' ' {
            SPACE_WIDTH as usize
        } else if c == '\n' || c == '\r' {
            0
        } else {
            match char_pixels_mapper.lookup(c) {
                Some(pattern) => {
                    let columns: usize = pattern.columns();
                    if !glyph_has_room(canvas, columns, current_x, start_y) {
                        assert(!glyph_fits(canvas@, table[line@[i]], line_end(table, line@.take(i), x0), y0));
                        return None;
                    }
                    proof {
                        crate::raster::lemma_supported_size_is_small(canvas@.width, canvas@.height);
                    }
                    columns + GLYPH_GAP as usize
                },
                None => 0,
            }
        };
        assert(step == char_advance(table, line@[i]));
        if step > (u32::MAX - current_x) as usize {
            return None;
        }
        current_x += step as u32;
    }
    assert(line@.take(line@.len() as int) =~= line@);
    Some(current_x)
}

/// The positions a glyph of `columns` columns covers when put at `(x, y)`.
pub open spec fn glyph_cells(canvas: CanvasModel, columns: int, x: int, y: int) -> Set<(int, int)> {
    Set::new(|p: (int, int)| in_glyph_box(canvas, p, columns, x, y))
}

/// The first `columns` full columns of a block of cells and the upper
/// `extra` cells of the column after them.
spec fn partial_cells(x: int, y: int, rows: int, columns: int, extra: int) -> Set<(int, int)> {
    Set::new(
        |p: (int, int)|
            (x <= p.0 < x + columns && y <= p.1 < y + rows) || (p.0 == x + columns && y <= p.1 < y
                + extra),
    )
}

proof fn lemma_partial_cells_len(x: int, y: int, rows: int, columns: int, extra: int)
    requires
        0 <= columns,
        0 <= extra <= rows,
    ensures
        partial_cells(x, y, rows, columns, extra).finite(),
        partial_cells(x, y, rows, columns, extra).len() == columns * rows + extra,
    decreases columns, extra,
{
    let cells = partial_cells(x, y, rows, columns, extra);
    if extra > 0 {
        lemma_partial_cells_len(x, y, rows, columns, extra - 1);
        let fewer = partial_cells(x, y, rows, columns, extra - 1);
        assert(cells =~= fewer.insert((x + columns, y + extra - 1)));
        assert(!fewer.contains((x + columns, y + extra - 1)));
    } else if columns > 0 {
        lemma_partial_cells_len(x, y, rows, columns - 1, rows);
        assert(cells =~= partial_cells(x, y, rows, columns - 1, rows));
        assert((columns - 1) * rows + rows == columns * rows) by (nonlinear_arith);
    } else {
        assert(cells =~= Set::<(int, int)>::empty());
        assert(columns * rows == 0) by (nonlinear_arith)
            requires
                columns == 0,
        ;
    }
}

/// Every glyph of a table is three rows of equally many dots, and putting
/// it on a canvas writes one pixel for each of its dots, no more: the block
/// it covers has `letter_height * (length / 3)` positions, each of them
/// gets the ink colour where the dot is on and the paper colour where it is
/// off, and every position outside the block keeps its colour.
pub proof fn lemma_glyph_writes_its_cells(
    table: Map<char, Seq<u8>>,
    canvas: CanvasModel,
    c: char,
    x: int,
    y: int,
)
    requires
        is_glyph_table(table),
        table.contains_key(c),
    ensures
        table[c].len() % 3 == 0,
        glyph_cells(canvas, pattern_columns(table[c]), x, y).finite(),
        glyph_cells(canvas, pattern_columns(table[c]), x, y).len() == canvas.letter_height * (
        table[c].len() / 3),
        with_glyph(canvas, table[c], x, y).same_geometry(canvas),
        with_glyph(canvas, table[c], x, y).pixels.dom() == canvas.pixels.dom(),
        forall|p: (int, int)|
            canvas.pixels.contains_key(p) ==> #[trigger] with_glyph(canvas, table[c], x, y).pixels[p]
                == if glyph_cells(canvas, pattern_columns(table[c]), x, y).contains(p) {
                dot_color(table[c][pattern_columns(table[c]) * (p.1 - y) + (p.0 - x)] == 1)
            } else {
                canvas.pixels[p]
            },
{
    let columns: int = pattern_columns(table[c]);
    let rows: int = canvas.letter_height as int;
    lemma_partial_cells_len(x, y, rows, columns, 0);
    assert(glyph_cells(canvas, columns, x, y) =~= partial_cells(x, y, rows, columns, 0));
    assert(columns * rows == rows * columns) by (nonlinear_arith);
    assert(with_glyph(canvas, table[c], x, y).pixels.dom() =~= canvas.pixels.dom());
}

/// A character without a glyph, other than a space, leaves no trace: the
/// line with it at its end moves the cursor as far and draws the same as
/// the line without it.
pub proof fn lemma_unsupported_char_is_skipped(
    table: Map<char, Seq<u8>>,
    canvas: CanvasModel,
    line: Seq<char>,
    c: char,
    start_x: int,
    start_y: int,
)
    requires
        !table.contains_key(c),
        c != ' ',
    ensures
        line_end(table, line.push(c), start_x) == line_end(table, line, start_x),
        with_line(table, canvas, line.push(c), start_x, start_y) == with_line(
            table,
            canvas,
            line,
            start_x,
            start_y,
        ),
{
    assert(line.push(c).drop_last() =~= line);
    assert(line.push(c).last() == c);
}

/// A space moves the cursor two columns to the right and draws nothing,
/// whatever the table holds.
pub proof fn lemma_space_moves_cursor(
    table: Map<char, Seq<u8>>,
    canvas: CanvasModel,
    line: Seq<char>,
    start_x: int,
    start_y: int,
)
    ensures
        line_end(table, line.push(' '), start_x) == line_end(table, line, start_x) + 2,
        with_line(table, canvas, line.push(' '), start_x, start_y) == with_line(
            table,
            canvas,
            line,
            start_x,
            start_y,
        ),
{
    assert(line.push(' ').drop_last() =~= line);
    assert(line.push(' ').last() == ' ');
}

/// A character with a glyph, at the end of a line, is drawn where the line
/// before it ended, and moves the cursor past its columns and one more.
pub proof fn lemma_glyph_char_is_drawn(
    table: Map<char, Seq<u8>>,
    canvas: CanvasModel,
    line: Seq<char>,
    c: char,
    start_x: int,
    start_y: int,
)
    requires
        draws_glyph(table, c),
    ensures
        line_end(table, line.push(c), start_x) == line_end(table, line, start_x) + pattern_columns(
            table[c],
        ) + 1,
        with_line(table, canvas, line.push(c), start_x, start_y) == with_glyph(
            with_line(table, canvas, line, start_x, start_y),
            table[c],
            line_end(table, line, start_x),
            start_y,
        ),
{
    assert(line.push(c).drop_last() =~= line);
    assert(line.push(c).last() == c);
}

} // verus!
