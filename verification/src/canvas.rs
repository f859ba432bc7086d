//! The drawing surface: a pixel grid together with the layout constants
//! that say where text may go on it.

use vstd::prelude::*;
use crate::color::{black, Color};
use crate::raster::{
    image_get_height, image_get_pixel, image_get_width, image_height, image_new, image_pixels,
    image_set_pixel, image_width, size_supported, uniform_pixels,
};

verus! {

/// Distance of the first text column from the left edge.
pub const MARGIN_X: u32 = 45;

/// Distance kept from the bottom edge, and top of every column but the first.
pub const MARGIN_Y: u32 = 8;

/// Number of pixel rows a line of text occupies.
pub const LETTER_HEIGHT: u32 = 3;

/// What a canvas is, mathematically: its size, its layout constants and the
/// colour at each position, `(0, 0)` being the upper left corner.
pub struct CanvasModel {
    pub width: nat,
    pub height: nat,
    pub margin_x: nat,
    pub margin_y: nat,
    pub letter_height: nat,
    pub pixels: Map<(int, int), Color>,
}

impl CanvasModel {
    /// Whether `(x, y)` is a position on the canvas.
    pub open spec fn contains(self, x: int, y: int) -> bool {
        0 <= x < self.width && 0 <= y < self.height
    }

    /// The canvas has a colour at exactly its own positions, its size is one
    /// the pixel store supports, and its layout constants are the fixed ones.
    pub open spec fn wf(self) -> bool {
        &&& size_supported(self.width, self.height)
        &&& self.margin_x == MARGIN_X
        &&& self.margin_y == MARGIN_Y
        &&& self.letter_height == LETTER_HEIGHT
        &&& forall|p: (int, int)| #[trigger] self.pixels.contains_key(p) <==> self.contains(p.0, p.1)
    }

    /// The same canvas with every pixel set to `color`.
    pub open spec fn cleared(self, color: Color) -> CanvasModel {
        CanvasModel { pixels: uniform_pixels(self.width, self.height, color), ..self }
    }

    /// The same canvas with the pixel at `(x, y)` set to `color`.
    pub open spec fn with_pixel(self, x: int, y: int, color: Color) -> CanvasModel {
        CanvasModel { pixels: self.pixels.insert((x, y), color), ..self }
    }

    /// Whether two canvases differ at most in their pixels.
    pub open spec fn same_geometry(self, other: CanvasModel) -> bool {
        &&& self.width == other.width
        &&& self.height == other.height
        &&& self.margin_x == other.margin_x
        &&& self.margin_y == other.margin_y
        &&& self.letter_height == other.letter_height
    }
}

/// Clearing is idempotent: a second clearing with the same colour changes
/// nothing.
pub proof fn lemma_clear_twice(canvas: CanvasModel, color: Color)
    ensures
        canvas.cleared(color).cleared(color) == canvas.cleared(color),
{
}

/// A pixel surface of fixed size with its layout constants.
#[derive(Debug)]
pub struct Canvas {
    margin_y: u32,
    margin_x: u32,
    letter_height: u32,
    bmp_image: bmp::Image,
}

impl View for Canvas {
    type V = CanvasModel;

    closed spec fn view(&self) -> CanvasModel {
        CanvasModel {
            width: image_width(self.bmp_image),
            height: image_height(self.bmp_image),
            margin_x: self.margin_x as nat,
            margin_y: self.margin_y as nat,
            letter_height: self.letter_height as nat,
            pixels: image_pixels(self.bmp_image),
        }
    }
}

impl Clone for Canvas {
    fn clone(&self) -> (copy: Canvas)
        ensures
            copy@ == self@,
    {
        Canvas {
            margin_y: self.margin_y,
            margin_x: self.margin_x,
            letter_height: self.letter_height,
            bmp_image: self.bmp_image.clone(),
        }
    }
}

impl Canvas {
    /// The invariant of every canvas.
    pub open spec fn wf(&self) -> bool {
        self@.wf()
    }

    /// A canvas of the given size with the standard layout constants. Its
    /// pixels are black until it is cleared.
    pub fn new(width: u32, height: u32) -> (canvas: Canvas)
        requires
            size_supported(width as nat, height as nat),
        ensures
            canvas.wf(),
            canvas@.width == width,
            canvas@.height == height,
            canvas@.pixels == uniform_pixels(width as nat, height as nat, black()),
    {
        Canvas {
            margin_y: MARGIN_Y,
            margin_x: MARGIN_X,
            letter_height: LETTER_HEIGHT,
            bmp_image: image_new(width, height),
        }
    }

    /// Number of pixel columns.
    pub fn width(&self) -> (w: u32)
        ensures
            w == self@.width,
    {
        image_get_width(&self.bmp_image)
    }

    /// Number of pixel rows.
    pub fn height(&self) -> (h: u32)
        ensures
            h == self@.height,
    {
        image_get_height(&self.bmp_image)
    }

    /// Distance of the first text column from the left edge.
    pub fn margin_x(&self) -> (m: u32)
        ensures
            m == self@.margin_x,
    {
        self.margin_x
    }

    /// Distance kept from the bottom edge.
    pub fn margin_y(&self) -> (m: u32)
        ensures
            m == self@.margin_y,
    {
        self.margin_y
    }

    /// Number of pixel rows a line of text occupies.
    pub fn letter_height(&self) -> (rows: u32)
        ensures
            rows == self@.letter_height,
    {
        self.letter_height
    }

    /// The pixel store, for handing to an encoder.
    pub fn image(&self) -> (img: &bmp::Image)
        ensures
            image_width(*img) == self@.width,
            image_height(*img) == self@.height,
            image_pixels(*img) == self@.pixels,
    {
        &self.bmp_image
    }

    /// The colour at `(x, y)`.
    pub fn get_pixel(&self, x: u32, y: u32) -> (color: Color)
        requires
            self.wf(),
            self@.contains(x as int, y as int),
        ensures
            color == self@.pixels[(x as int, y as int)],
    {
        image_get_pixel(&self.bmp_image, x, y)
    }

    /// Sets the pixel at `(x, y)` to `color` and leaves the others alone.
    pub fn set_pixel(&mut self, x: u32, y: u32, color: Color)
        requires
            old(self).wf(),
            old(self)@.contains(x as int, y as int),
        ensures
            final(self)@ == old(self)@.with_pixel(x as int, y as int, color),
            final(self).wf(),
    {
        image_set_pixel(&mut self.bmp_image, x, y, color);
        proof {
            let before = old(self)@;
            let after = self@;
            assert forall|p: (int, int)| #[trigger]
                after.pixels.contains_key(p) <==> after.contains(p.0, p.1) by {
                assert(before.pixels.contains_key(p) <==> before.contains(p.0, p.1));
            }
        }
    }

    /// Sets every pixel to `color`.
    pub fn clear(&mut self, color: Color)
        requires
            old(self).wf(),
        ensures
            final(self)@ == old(self)@.cleared(color),
            final(self).wf(),
    {
        let width: u32 = self.width();
        let height: u32 = self.height();
        let mut y: u32 = 0;
        while y < height
            invariant
                self.wf(),
                self@.same_geometry(old(self)@),
                width == self@.width,
                height == self@.height,
                y <= height,
                forall|p: (int, int)|
                    self@.contains(p.0, p.1) && p.1 < y ==> #[trigger] self@.pixels[p] == color,
            decreases height - y,
        {
            let mut x: u32 = 0;
            while x < width
                invariant
                    self.wf(),
                    self@.same_geometry(old(self)@),
                    width == self@.width,
                    height == self@.height,
                    y < height,
                    x <= width,
                    forall|p: (int, int)|
                        self@.contains(p.0, p.1) && (p.1 < y || (p.1 == y && p.0 < x))
                            ==> #[trigger] self@.pixels[p] == color,
                decreases width - x,
            {
                self.set_pixel(x, y, color);
                x += 1;
            }
            y += 1;
        }
        assert(self@.pixels =~= uniform_pixels(self@.width, self@.height, color));
    }
}

} // verus!
