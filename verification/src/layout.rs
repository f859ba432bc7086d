//! Placing the lines of a document: down a column, and on to the next
//! column when the current one is full.

use vstd::prelude::*;
use crate::canvas::{Canvas, CanvasModel};
use crate::line::{
    draw_text_line, lemma_line_end_monotonic, lemma_with_line_keeps_geometry, line_end,
    line_extent, line_fits, with_line,
};
use crate::mapper::CharPixelsMapper;
use crate::raster::lemma_supported_size_is_small;

verus! {

/// Blank pixel rows between the top edge and the first line, added to the
/// height of a line.
pub const TOP_GAP: u32 = 3;

/// Blank pixel rows between two lines of a column.
pub const LINE_GAP: u32 = 1;

/// Blank pixel columns between the widest line of a column and the next
/// column.
pub const COLUMN_GUTTER: u32 = 2;

/// The layout state as numbers without bounds.
pub struct LayoutModel {
    /// Left edge of the current column.
    pub x: int,
    /// Top of the next line.
    pub y: int,
    /// Furthest cursor position reached by a line of the current column.
    pub record_width: int,
}

/// The layout state carried from line to line.
#[derive(Clone, Copy, Debug, PartialEq, Eq, Structural)]
pub struct LayoutCursor {
    pub current_x: u32,
    pub current_y: u32,
    pub chapter_record_width: u32,
}

impl View for LayoutCursor {
    type V = LayoutModel;

    open spec fn view(&self) -> LayoutModel {
        LayoutModel {
            x: self.current_x as int,
            y: self.current_y as int,
            record_width: self.chapter_record_width as int,
        }
    }
}

/// The lines of a document as sequences of characters.
pub open spec fn text_of(document: Seq<String>) -> Seq<Seq<char>> {
    Seq::new(document.len(), |i: int| document[i]@)
}

/// The state before the first line.
pub open spec fn start_cursor(canvas: CanvasModel) -> LayoutModel {
    LayoutModel { x: canvas.margin_x as int, y: canvas.letter_height + TOP_GAP, record_width: 0 }
}

/// Whether a line at the cursor would reach into the bottom margin.
pub open spec fn column_full(canvas: CanvasModel, cursor: LayoutModel) -> bool {
    cursor.y + canvas.letter_height > canvas.height - canvas.margin_y
}

/// The state in which the next line is drawn: the cursor itself, or, where
/// the column is full, the top of a new column that starts a gutter past the
/// widest line so far and has no widest line yet.
pub open spec fn line_origin(canvas: CanvasModel, cursor: LayoutModel) -> LayoutModel {
    if column_full(canvas, cursor) {
        LayoutModel {
            x: COLUMN_GUTTER + cursor.record_width,
            y: canvas.margin_y as int,
            record_width: 0,
        }
    } else {
        cursor
    }
}

/// The state after `line`. An empty line changes nothing; any other line is
/// placed, may widen its column, and moves the cursor one line down.
pub open spec fn after_line(
    table: Map<char, Seq<u8>>,
    canvas: CanvasModel,
    cursor: LayoutModel,
    line: Seq<char>,
) -> LayoutModel {
    if line.len() == 0 {
        cursor
    } else {
        let origin = line_origin(canvas, cursor);
        let end: int = line_end(table, line, origin.x);
        LayoutModel {
            x: origin.x,
            y: origin.y + canvas.letter_height + LINE_GAP,
            record_width: if end > origin.record_width {
                end
            } else {
                origin.record_width
            },
        }
    }
}

/// The state after all lines of `text`.
pub open spec fn after_lines(
    table: Map<char, Seq<u8>>,
    canvas: CanvasModel,
    text: Seq<Seq<char>>,
) -> LayoutModel
    decreases text.len(),
{
    if text.len() == 0 {
        start_cursor(canvas)
    } else {
        after_line(table, canvas, after_lines(table, canvas, text.drop_last()), text.last())
    }
}

/// The canvas after all lines of `text` have been drawn, each non-empty one
/// at the place the layout gives it.
pub open spec fn with_text(
    table: Map<char, Seq<u8>>,
    canvas: CanvasModel,
    text: Seq<Seq<char>>,
) -> CanvasModel
    decreases text.len(),
{
    if text.len() == 0 {
        canvas
    } else {
        let before = with_text(table, canvas, text.drop_last());
        if text.last().len() == 0 {
            before
        } else {
            let origin = line_origin(canvas, after_lines(table, canvas, text.drop_last()));
            with_line(table, before, text.last(), origin.x, origin.y)
        }
    }
}

/// Whether all of `text` can be drawn: every non-empty line fits at the
/// place the layout gives it.
pub open spec fn text_fits(
    table: Map<char, Seq<u8>>,
    canvas: CanvasModel,
    text: Seq<Seq<char>>,
) -> bool {
    forall|k: int|
        0 <= k < text.len() && (#[trigger] text[k]).len() > 0 ==> {
            let origin = line_origin(canvas, after_lines(table, canvas, text.take(k)));
            line_fits(table, canvas, text[k], origin.x, origin.y)
        }
}

/// Whether a state can be held in a cursor and stepped without overflow.
pub open spec fn cursor_in_range(canvas: CanvasModel, cursor: LayoutModel) -> bool {
    &&& 0 <= cursor.x <= u32::MAX
    &&& 0 <= cursor.record_width <= u32::MAX
    &&& 0 <= cursor.y <= canvas.height + canvas.margin_y + canvas.letter_height + LINE_GAP
}

impl LayoutCursor {
    /// The cursor before the first line.
    pub fn start(canvas: &Canvas) -> (cursor: LayoutCursor)
        requires
            canvas.wf(),
        ensures
            cursor@ == start_cursor(canvas@),
            cursor_in_range(canvas@, cursor@),
    {
        LayoutCursor {
            current_x: canvas.margin_x(),
            current_y: canvas.letter_height() + TOP_GAP,
            chapter_record_width: 0,
        }
    }

    /// Whether the current column has no room for another line.
    pub fn is_column_full(&self, canvas: &Canvas) -> (full: bool)
        requires
            canvas.wf(),
        ensures
            full == column_full(canvas@, self@),
    {
        self.current_y as u64 + canvas.letter_height() as u64 + canvas.margin_y() as u64
            > canvas.height() as u64
    }

    /// Moves to the top of a new column where the current one is full.
    pub fn place(&mut self, canvas: &Canvas)
        requires
            canvas.wf(),
            column_full(canvas@, old(self)@) ==> COLUMN_GUTTER + old(self).chapter_record_width
                <= u32::MAX,
        ensures
            final(self)@ == line_origin(canvas@, old(self)@),
            cursor_in_range(canvas@, old(self)@) ==> cursor_in_range(canvas@, final(self)@),
    {
        if self.is_column_full(canvas) {
            self.current_x = COLUMN_GUTTER + self.chapter_record_width;
            self.current_y = canvas.margin_y();
            self.chapter_record_width = 0;
        }
    }

    /// Records a line that reached `line_width` and moves one line down.
    pub fn advance(&mut self, canvas: &Canvas, line_width: u32)
        requires
            canvas.wf(),
            old(self).current_y + canvas@.letter_height + LINE_GAP <= u32::MAX,
        ensures
            final(self).current_x == old(self).current_x,
            final(self).current_y == old(self).current_y + canvas@.letter_height + LINE_GAP,
            final(self).chapter_record_width == if line_width > old(self).chapter_record_width {
                line_width
            } else {
                old(self).chapter_record_width
            },
    {
        if line_width > self.chapter_record_width {
            self.chapter_record_width = line_width;
        }
        self.current_y = self.current_y + canvas.letter_height() + LINE_GAP;
    }
}

/// One more line at the end of a text: state and canvas after the longer
/// text, from those after the shorter one.
proof fn lemma_text_step(
    table: Map<char, Seq<u8>>,
    canvas: CanvasModel,
    text: Seq<Seq<char>>,
    k: int,
)
    requires
        0 <= k < text.len(),
    ensures
        after_lines(table, canvas, text.take(k + 1)) == after_line(
            table,
            canvas,
            after_lines(table, canvas, text.take(k)),
            text[k],
        ),
        with_text(table, canvas, text.take(k + 1)) == if text[k].len() == 0 {
            with_text(table, canvas, text.take(k))
        } else {
            let origin = line_origin(canvas, after_lines(table, canvas, text.take(k)));
            with_line(table, with_text(table, canvas, text.take(k)), text[k], origin.x, origin.y)
        },
{
    assert(text.take(k + 1).drop_last() =~= text.take(k));
    assert(text.take(k + 1).last() == text[k]);
}

/// Whether a line fits depends on the canvas's size and constants only.
proof fn lemma_line_fits_by_geometry(
    table: Map<char, Seq<u8>>,
    a: CanvasModel,
    b: CanvasModel,
    line: Seq<char>,
    x: int,
    y: int,
)
    requires
        a.same_geometry(b),
    ensures
        line_fits(table, a, line, x, y) == line_fits(table, b, line, x, y),
{
}

/// Where lines go, and whether they fit, depends on the canvas's size and
/// constants only, not on what is drawn on it.
pub proof fn lemma_layout_by_geometry(
    table: Map<char, Seq<u8>>,
    a: CanvasModel,
    b: CanvasModel,
    text: Seq<Seq<char>>,
)
    requires
        a.same_geometry(b),
    ensures
        after_lines(table, a, text) == after_lines(table, b, text),
        text_fits(table, a, text) == text_fits(table, b, text),
    decreases text.len(),
{
    lemma_cursor_by_geometry(table, a, b, text);
    assert forall|k: int| 0 <= k < text.len() implies after_lines(table, a, text.take(k))
        == after_lines(table, b, #[trigger] text.take(k)) by {
        lemma_cursor_by_geometry(table, a, b, text.take(k));
    }
    assert forall|k: int, x: int, y: int| 0 <= k < text.len() implies line_fits(
        table,
        a,
        #[trigger] text[k],
        x,
        y,
    ) == #[trigger] line_fits(table, b, text[k], x, y) by {
        lemma_line_fits_by_geometry(table, a, b, text[k], x, y);
    }
}

/// The layout state depends on the canvas's size and constants only.
proof fn lemma_cursor_by_geometry(
    table: Map<char, Seq<u8>>,
    a: CanvasModel,
    b: CanvasModel,
    text: Seq<Seq<char>>,
)
    requires
        a.same_geometry(b),
    ensures
        after_lines(table, a, text) == after_lines(table, b, text),
    decreases text.len(),
{
    if text.len() > 0 {
        lemma_cursor_by_geometry(table, a, b, text.drop_last());
    }
}

/// Draws the lines of `document` in order, each non-empty one below the
/// last, starting a new column whenever the current one is full. Empty
/// lines take no room.
pub fn render(document: &Vec<String>, canvas: &mut Canvas, char_pixels_mapper: &CharPixelsMapper)
    requires
        old(canvas).wf(),
        char_pixels_mapper.wf(),
        text_fits(char_pixels_mapper@, old(canvas)@, text_of(document@)),
    ensures
        final(canvas)@ == with_text(char_pixels_mapper@, old(canvas)@, text_of(document@)),
        final(canvas).wf(),
        final(canvas)@.same_geometry(old(canvas)@),
{
    let ghost table = char_pixels_mapper@;
    let ghost before = canvas@;
    let ghost text = text_of(document@);
    let mut cursor = LayoutCursor::start(canvas);
    let mut k: usize = 0;
    while k < document.len()
        invariant
            k <= document.len(),
            text == text_of(document@),
            table == char_pixels_mapper@,
            char_pixels_mapper.wf(),
            canvas.wf(),
            before.wf(),
            canvas@.same_geometry(before),
            text_fits(table, before, text),
            cursor_in_range(before, cursor@),
            cursor@ == after_lines(table, before, text.take(k as int)),
            canvas@ == with_text(table, before, text.take(k as int)),
        decreases document.len() - k,
    {
        let line = document[k].as_str();
        proof {
            lemma_text_step(table, before, text, k as int);
            lemma_supported_size_is_small(before.width, before.height);
        }
        if !line.is_empty() {
            let ghost origin = line_origin(before, cursor@);
            proof {
                assert(text[k as int].len() > 0);
                assert(line_fits(table, before, text[k as int], origin.x, origin.y));
                lemma_line_end_monotonic(table, text[k as int], origin.x, 0);
                lemma_line_fits_by_geometry(table, before, canvas@, line@, origin.x, origin.y);
            }
            cursor.place(canvas);
            let line_width: u32 = draw_text_line(
                canvas,
                char_pixels_mapper,
                line,
                cursor.current_x,
                cursor.current_y,
            );
            cursor.advance(canvas, line_width);
        }
        k += 1;
    }
    assert(text.take(text.len() as int) =~= text);
}

/// Whether `document` can be drawn on `canvas`: follows the layout without
/// drawing and tells whether every line would land on the canvas.
pub fn can_render(document: &Vec<String>, canvas: &Canvas, char_pixels_mapper: &CharPixelsMapper) -> (fits: bool)
    requires
        canvas.wf(),
        char_pixels_mapper.wf(),
    ensures
        fits == text_fits(char_pixels_mapper@, canvas@, text_of(document@)),
{
    let ghost table = char_pixels_mapper@;
    let ghost text = text_of(document@);
    let mut cursor = LayoutCursor::start(canvas);
    let mut k: usize = 0;
    while k < document.len()
        invariant
            k <= document.len(),
            text == text_of(document@),
            table == char_pixels_mapper@,
            char_pixels_mapper.wf(),
            canvas.wf(),
            cursor_in_range(canvas@, cursor@),
            cursor@ == after_lines(table, canvas@, text.take(k as int)),
            forall|j: int|
                0 <= j < k && (#[trigger] text[j]).len() > 0 ==> {
                    let origin = line_origin(canvas@, after_lines(table, canvas@, text.take(j)));
                    line_fits(table, canvas@, text[j], origin.x, origin.y)
                },
        decreases document.len() - k,
    {
        let line = document[k].as_str();
        proof {
            lemma_text_step(table, canvas@, text, k as int);
            lemma_supported_size_is_small(canvas@.width, canvas@.height);
        }
        if !line.is_empty() {
            let ghost origin = line_origin(canvas@, cursor@);
            proof {
                lemma_line_end_monotonic(table, text[k as int], origin.x, 0);
            }
            if cursor.is_column_full(canvas) && cursor.chapter_record_width > u32::MAX
                - COLUMN_GUTTER {
                assert(!line_fits(table, canvas@, text[k as int], origin.x, origin.y));
                return false;
            }
            cursor.place(canvas);
            match line_extent(canvas, char_pixels_mapper, line, cursor.current_x, cursor.current_y) {
                Some(line_width) => {
                    cursor.advance(canvas, line_width);
                },
                None => {
                    assert(!line_fits(table, canvas@, text[k as int], origin.x, origin.y));
                    return false;
                },
            }
        }
        k += 1;
    }
    true
}

/// Column wrap: where the column is full when a non-empty line is due,
/// that line is drawn at the top margin, a gutter to the right of the
/// widest line of the column that was full, and the new column's record
/// starts from nothing, so that it is this line's own end.
pub proof fn lemma_column_wrap(
    table: Map<char, Seq<u8>>,
    canvas: CanvasModel,
    text: Seq<Seq<char>>,
    k: int,
)
    requires
        0 <= k < text.len(),
        text[k].len() > 0,
        column_full(canvas, after_lines(table, canvas, text.take(k))),
        0 <= after_lines(table, canvas, text.take(k)).record_width,
    ensures
        ({
            let previous = after_lines(table, canvas, text.take(k));
            let x: int = COLUMN_GUTTER + previous.record_width;
            let y: int = canvas.margin_y as int;
            &&& line_origin(canvas, previous).x == x
            &&& line_origin(canvas, previous).y == y
            &&& with_text(table, canvas, text.take(k + 1)) == with_line(
                table,
                with_text(table, canvas, text.take(k)),
                text[k],
                x,
                y,
            )
            &&& after_lines(table, canvas, text.take(k + 1)).x == x
            &&& after_lines(table, canvas, text.take(k + 1)).y == y + canvas.letter_height
                + LINE_GAP
            &&& after_lines(table, canvas, text.take(k + 1)).record_width == line_end(
                table,
                text[k],
                x,
            )
        }),
{
    lemma_text_step(table, canvas, text, k);
    let previous = after_lines(table, canvas, text.take(k));
    lemma_line_end_monotonic(table, text[k], COLUMN_GUTTER + previous.record_width, 0);
}

/// Within a column: where the column is not full when a non-empty line is
/// due, the line is drawn at the cursor, the column's left edge stays, the
/// cursor moves one line down, and the record never shrinks.
pub proof fn lemma_column_continues(
    table: Map<char, Seq<u8>>,
    canvas: CanvasModel,
    text: Seq<Seq<char>>,
    k: int,
)
    requires
        0 <= k < text.len(),
        text[k].len() > 0,
        !column_full(canvas, after_lines(table, canvas, text.take(k))),
    ensures
        ({
            let previous = after_lines(table, canvas, text.take(k));
            let next = after_lines(table, canvas, text.take(k + 1));
            &&& with_text(table, canvas, text.take(k + 1)) == with_line(
                table,
                with_text(table, canvas, text.take(k)),
                text[k],
                previous.x,
                previous.y,
            )
            &&& next.x == previous.x
            &&& next.y == previous.y + canvas.letter_height + LINE_GAP
            &&& next.record_width >= previous.record_width
            &&& next.record_width >= line_end(table, text[k], previous.x)
        }),
{
    lemma_text_step(table, canvas, text, k);
}

/// Empty lines take no room: a text with one more empty line at its end
/// leaves the canvas and the layout state as the text without it.
pub proof fn lemma_empty_line_is_skipped(
    table: Map<char, Seq<u8>>,
    canvas: CanvasModel,
    text: Seq<Seq<char>>,
)
    ensures
        with_text(table, canvas, text.push(Seq::empty())) == with_text(table, canvas, text),
        after_lines(table, canvas, text.push(Seq::empty())) == after_lines(table, canvas, text),
{
    assert(text.push(Seq::empty()).drop_last() =~= text);
    assert(text.push(Seq::empty()).last() == Seq::<char>::empty());
}

/// A text of empty lines only draws nothing and moves nothing: the canvas
/// stays as it was, a cleared one cleared, and the layout state is still
/// the starting one. Such a text always fits.
pub proof fn lemma_only_empty_lines(
    table: Map<char, Seq<u8>>,
    canvas: CanvasModel,
    text: Seq<Seq<char>>,
)
    requires
        forall|k: int| 0 <= k < text.len() ==> (#[trigger] text[k]).len() == 0,
    ensures
        with_text(table, canvas, text) == canvas,
        after_lines(table, canvas, text) == start_cursor(canvas),
        text_fits(table, canvas, text),
    decreases text.len(),
{
    if text.len() > 0 {
        lemma_only_empty_lines(table, canvas, text.drop_last());
    }
}

/// Drawing a text changes pixels only: the canvas keeps its size, its
/// constants and its set of positions, so nothing is ever written outside
/// it.
pub proof fn lemma_with_text_keeps_geometry(
    table: Map<char, Seq<u8>>,
    canvas: CanvasModel,
    text: Seq<Seq<char>>,
)
    ensures
        with_text(table, canvas, text).same_geometry(canvas),
        with_text(table, canvas, text).pixels.dom() == canvas.pixels.dom(),
    decreases text.len(),
{
    if text.len() > 0 {
        lemma_with_text_keeps_geometry(table, canvas, text.drop_last());
        if text.last().len() > 0 {
            let origin = line_origin(canvas, after_lines(table, canvas, text.drop_last()));
            lemma_with_line_keeps_geometry(
                table,
                with_text(table, canvas, text.drop_last()),
                text.last(),
                origin.x,
                origin.y,
            );
        }
    }
}

} // verus!
