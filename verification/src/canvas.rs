use crate::color::Color;
use crate::scalar::{Scalar, ONE_BITS};
use crate::tolerance::close;
use crate::tuple::Tuple;
use crate::ppm::{
    append_row, encode_header, header_text, lemma_closed_row_lines, lemma_header_lines,
    lemma_lines_joined, row_cache_entries, row_cache_new, row_cache_sound, row_text, within_limit,
    NEWLINE,
};
use vstd::prelude::*;

verus! {

/// A grid of clamped colours, `width` across and `height` down, stored row
/// by row.
pub struct Canvas {
    pub width: usize,
    pub height: usize,
    pub pixels: Vec<Color>,
}

impl Canvas {
    /// Whether the canvas holds one clamped colour for each pixel.
    pub open spec fn wf(&self) -> bool {
        &&& self.pixels.len() == self.width * self.height
        &&& forall|i: int| 0 <= i < self.pixels.len() ==> (#[trigger] self.pixels[i]).in_unit()
    }

    /// The place of pixel `(x, y)` in `pixels`.
    pub open spec fn index(&self, x: int, y: int) -> int {
        y * self.width + x
    }

    /// The colour at `(x, y)`.
    pub open spec fn pixel(&self, x: int, y: int) -> Color {
        self.pixels[self.index(x, y)]
    }

    /// The channel values of row `y`, three for each pixel from left to
    /// right, red first.
    pub open spec fn row_values(&self, y: int) -> Seq<u8> {
        Seq::new((3 * self.width) as nat, |k: int| self.pixel(k / 3, y).channels()[k % 3])
    }

    /// The pixel data of the first `rows` rows: the text of each row, closed
    /// by a line feed.
    pub open spec fn rows_text(&self, rows: nat) -> Seq<u8>
        decreases rows,
    {
        if rows == 0 {
            Seq::empty()
        } else {
            self.rows_text((rows - 1) as nat) + row_text(self.row_values(rows - 1)).push(NEWLINE)
        }
    }

    /// The whole image as plain-text PPM: the header, then every row.
    pub open spec fn ppm_text(&self) -> Seq<u8> {
        header_text(self.width as nat, self.height as nat) + self.rows_text(self.height as nat)
    }

    /// The header and the first `rows` rows keep their lines within the
    /// limit and end in a line feed.
    pub proof fn lemma_ppm_lines(&self, rows: nat)
        ensures
            within_limit(
                header_text(self.width as nat, self.height as nat) + self.rows_text(rows),
            ),
            (header_text(self.width as nat, self.height as nat) + self.rows_text(rows)).len() > 0,
            (header_text(self.width as nat, self.height as nat) + self.rows_text(rows)).last()
                == NEWLINE,
        decreases rows,
    {
        let header = header_text(self.width as nat, self.height as nat);
        lemma_header_lines(self.width as nat, self.height as nat);
        if rows == 0 {
            assert(header + self.rows_text(0) =~= header);
        } else {
            let before = header + self.rows_text((rows - 1) as nat);
            let row = row_text(self.row_values(rows - 1)).push(NEWLINE);
            self.lemma_ppm_lines((rows - 1) as nat);
            lemma_closed_row_lines(self.row_values(rows - 1));
            lemma_lines_joined(before, row);
            assert(header + self.rows_text(rows) =~= before + row);
        }
    }

    /// A canvas of the given size with every pixel black.
    pub fn new(width: usize, height: usize) -> (canvas: Canvas)
        requires
            width * height <= usize::MAX,
        ensures
            canvas.wf(),
            canvas.width == width,
            canvas.height == height,
            forall|i: int| 0 <= i < canvas.pixels.len() ==> canvas.pixels[i] == Color::black_spec(),
    {
        Canvas { width, height, pixels: vec![Color::black(); width * height] }
    }

    /// The colour at `(x, y)`.
    pub fn pixel_at(&self, x: usize, y: usize) -> (color: Color)
        requires
            self.wf(),
            x < self.width,
            y < self.height,
        ensures
            color == self.pixel(x as int, y as int),
            color.in_unit(),
    {
        proof {
            lemma_index_in_range(x as int, y as int, self.width as int, self.height as int);
        }
        self.pixels[y * self.width + x]
    }

    /// Writes the clamped colour at `(x, y)`. A write outside the canvas
    /// changes nothing.
    pub fn write_pixel(&mut self, x: usize, y: usize, color: Color)
        requires
            old(self).wf(),
        ensures
            final(self).wf(),
            final(self).width == old(self).width,
            final(self).height == old(self).height,
            x < old(self).width && y < old(self).height ==> final(self).pixels@ == old(
                self,
            ).pixels@.update(old(self).index(x as int, y as int), color.unit()),
            !(x < old(self).width && y < old(self).height) ==> final(self).pixels@ == old(
                self,
            ).pixels@,
    {
        if x >= self.width || y >= self.height {
            return ;
        }
        proof {
            lemma_index_in_range(x as int, y as int, self.width as int, self.height as int);
        }
        let index = y * self.width + x;
        let clamped = color.clamped();
        self.pixels[index] = clamped;
    }

    /// The channel values of row `y`.
    fn row(&self, y: usize) -> (values: Vec<u8>)
        requires
            self.wf(),
            y < self.height,
        ensures
            values@ == self.row_values(y as int),
    {
        let mut values: Vec<u8> = Vec::new();
        let mut x: usize = 0;
        while x < self.width
            invariant
                self.wf(),
                y < self.height,
                x <= self.width,
                values@.len() == 3 * x,
                forall|k: int|
                    0 <= k < 3 * x ==> values@[k] == self.pixel(k / 3, y as int).channels()[k % 3],
            decreases self.width - x,
        {
            let color = self.pixel_at(x, y);
            values.push(color.r.to_channel());
            values.push(color.g.to_channel());
            values.push(color.b.to_channel());
            x = x + 1;
        }
        assert(values@ =~= self.row_values(y as int));
        values
    }

    /// The image as plain-text PPM: the header, then each row of pixels as
    /// its channel values in decimal. No line is longer than the limit, and
    /// the last byte is a line feed.
    pub fn to_ppm(&self) -> (text: Vec<u8>)
        requires
            self.wf(),
        ensures
            text@ == self.ppm_text(),
            within_limit(text@),
            text@.len() > 0,
            text@.last() == NEWLINE,
    {
        proof {
            self.lemma_ppm_lines(self.height as nat);
        }
        let mut text = encode_header(self.width, self.height);
        let mut cache = row_cache_new();
        assert(row_cache_entries(cache).dom() =~= Set::empty());
        let mut y: usize = 0;
        while y < self.height
            invariant
                self.wf(),
                y <= self.height,
                row_cache_sound(cache),
                text@ == header_text(self.width as nat, self.height as nat) + self.rows_text(
                    y as nat,
                ),
            decreases self.height - y,
        {
            let row = self.row(y);
            append_row(&mut text, &mut cache, row);
            text.push(NEWLINE);
            assert(text@ =~= header_text(self.width as nat, self.height as nat) + self.rows_text(
                (y + 1) as nat,
            ));
            y = y + 1;
        }
        text
    }
}

/// The place on a canvas of a point of a scene whose y axis points upwards.
#[derive(Clone, Copy, Debug, PartialEq, Eq, Structural)]
pub enum Pixel {
    Coordinate { x: usize, y: usize },
    OutOfBounds,
}

impl Pixel {
    /// The place of `point` on `canvas`. Its x and y are rounded to whole
    /// numbers. A point left of or below the canvas, or beyond its width or
    /// its height, is out of bounds; any other stands in its column, as far
    /// from the bottom edge as it is high.
    pub fn from_point_for_canvas(point: Tuple, canvas: &Canvas) -> (pixel: Pixel)
        requires
            close(point.w, Scalar { bits: ONE_BITS }),
        ensures
            pixel == (if point.x.negative() || point.y.negative() || point.x.index()
                > canvas.width || point.y.index() > canvas.height {
                Pixel::OutOfBounds
            } else {
                Pixel::Coordinate {
                    x: point.x.index() as usize,
                    y: (canvas.height - point.y.index()) as usize,
                }
            }),
    {
        let column = point.x.to_index();
        let height = point.y.to_index();
        if point.x.is_sign_negative() || point.y.is_sign_negative() || column > canvas.width
            || height > canvas.height {
            return Pixel::OutOfBounds;
        }
        Pixel::Coordinate { x: column, y: canvas.height - height }
    }
}

/// A pixel inside a grid has its place inside the grid's storage.
pub proof fn lemma_index_in_range(x: int, y: int, width: int, height: int)
    requires
        0 <= x < width,
        0 <= y < height,
    ensures
        0 <= y * width + x < width * height,
{
    assert(y * width + x < width * height) by (nonlinear_arith)
        requires
            0 <= x < width,
            0 <= y < height,
    {
        assert((y + 1) * width <= height * width);
    }
    assert(0 <= y * width) by (nonlinear_arith)
        requires
            0 <= y,
            0 <= width,
    ;
}

} // verus!
