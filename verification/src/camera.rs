use crate::canvas::{lemma_index_in_range, Canvas};
use crate::color::Color;
use crate::matrix::{Grid, Matrix};
use crate::scalar::Scalar;
use itertools::Itertools;
use vstd::arithmetic::div_mod::{lemma_fundamental_div_mod, lemma_fundamental_div_mod_converse};
use vstd::prelude::*;

verus! {

/// A pinhole camera: the size of its image in pixels, its angle of view,
/// the transform from the world to the eye, and the half extent of the
/// image plane and the size of one pixel on it.
#[derive(Debug)]
pub struct Camera {
    pub hsize: usize,
    pub vsize: usize,
    pub field_of_view: Scalar,
    pub transform: Matrix,
    pub half_width: Scalar,
    pub half_height: Scalar,
    pub pixel_size: Scalar,
}

/// The pixel that is handed out in place `k`: column by column, each from its
/// top to its bottom.
pub open spec fn pixel_in_place(k: int, vsize: int) -> (usize, usize) {
    ((k / vsize) as usize, (k % vsize) as usize)
}

/// The place in which pixel `(x, y)` is handed out.
pub open spec fn place_of(x: int, y: int, vsize: int) -> int {
    x * vsize + y
}

/// `Itertools::cartesian_product` of the two ranges from zero, collected:
/// every pair of a first and a second number, ordered by the first and,
/// among equals, by the second.
#[verifier::external_body]
fn cartesian_product(firsts: usize, seconds: usize) -> (pairs: Vec<(usize, usize)>)
    requires
        firsts * seconds * 16 <= isize::MAX,
    ensures
        pairs@.len() == firsts * seconds,
        forall|k: int| 0 <= k < pairs@.len() ==> pairs@[k] == pixel_in_place(k, seconds as int),
{
    (0..firsts).cartesian_product(0..seconds).collect()
}

/// The pixels of an image of `hsize` by `vsize`, each once, column by
/// column and each column from its top to its bottom.
pub fn pixel_grid(hsize: usize, vsize: usize) -> (pairs: Vec<(usize, usize)>)
    requires
        hsize * vsize * 16 <= isize::MAX,
    ensures
        pairs@.len() == hsize * vsize,
        forall|k: int| 0 <= k < pairs@.len() ==> pairs@[k] == pixel_in_place(k, vsize as int),
        forall|k: int|
            0 <= k < pairs@.len() ==> (#[trigger] pairs@[k]).0 < hsize && pairs@[k].1 < vsize,
        forall|x: int, y: int|
            0 <= x < hsize && 0 <= y < vsize ==> 0 <= #[trigger] place_of(x, y, vsize as int)
                < pairs@.len() && pairs@[place_of(x, y, vsize as int)] == (x as usize, y as usize),
{
    let pairs = cartesian_product(hsize, vsize);
    proof {
        assert forall|k: int| 0 <= k < pairs@.len() implies (#[trigger] pairs@[k]).0 < hsize
            && pairs@[k].1 < vsize by {
            lemma_place_in_image(k, hsize as int, vsize as int);
            assert(pairs@[k] == pixel_in_place(k, vsize as int));
        }
        assert forall|x: int, y: int| 0 <= x < hsize && 0 <= y < vsize implies 0
            <= #[trigger] place_of(x, y, vsize as int) < pairs@.len() && pairs@[place_of(
            x,
            y,
            vsize as int,
        )] == (x as usize, y as usize) by {
            let k = place_of(x, y, vsize as int);
            lemma_index_in_range(y, x, vsize as int, hsize as int);
            assert(vsize * hsize == hsize * vsize) by (nonlinear_arith);
            assert(0 <= k < pairs@.len());
            lemma_fundamental_div_mod_converse(k, vsize as int, x, y);
            assert(pairs@[k] == pixel_in_place(k, vsize as int));
        }
    }
    pairs
}

impl Camera {
    /// Whether the image is at least as wide as it is high.
    pub open spec fn wide(hsize: usize, vsize: usize) -> bool {
        hsize >= vsize
    }

    /// Whether the image is at least as wide as it is high.
    pub fn is_wide(hsize: usize, vsize: usize) -> (wide: bool)
        ensures
            wide == Camera::wide(hsize, vsize),
    {
        hsize >= vsize
    }

    /// The camera for an image of `hsize` by `vsize` pixels, with the
    /// identity as its transform.
    ///
    /// `half_view` is the half extent of the image plane along the longer
    /// side of the image, and `reduced` the one along the shorter side: a
    /// wide image has them as half width and half height, a high one the
    /// other way round.
    pub fn new(
        hsize: usize,
        vsize: usize,
        field_of_view: Scalar,
        half_view: Scalar,
        reduced: Scalar,
        pixel_size: Scalar,
    ) -> (camera: Camera)
        ensures
            camera.hsize == hsize,
            camera.vsize == vsize,
            camera.field_of_view == field_of_view,
            camera.pixel_size == pixel_size,
            camera.transform.wf(),
            camera.transform@ == Grid::identity(),
            Camera::wide(hsize, vsize) ==> camera.half_width == half_view && camera.half_height
                == reduced,
            !Camera::wide(hsize, vsize) ==> camera.half_width == reduced && camera.half_height
                == half_view,
    {
        let wide = Camera::is_wide(hsize, vsize);
        Camera {
            hsize,
            vsize,
            field_of_view,
            transform: Matrix::identity(),
            half_width: if wide {
                half_view
            } else {
                reduced
            },
            half_height: if wide {
                reduced
            } else {
                half_view
            },
            pixel_size,
        }
    }

    /// The pixels of the image in the order in which `render` takes their
    /// colours: each pixel once, column by column.
    pub fn pixels(&self) -> (pairs: Vec<(usize, usize)>)
        requires
            self.hsize * self.vsize * 16 <= isize::MAX,
        ensures
            pairs@.len() == self.hsize * self.vsize,
            forall|k: int|
                0 <= k < pairs@.len() ==> pairs@[k] == pixel_in_place(k, self.vsize as int),
            forall|k: int|
                0 <= k < pairs@.len() ==> (#[trigger] pairs@[k]).0 < self.hsize && pairs@[k].1
                    < self.vsize,
    {
        pixel_grid(self.hsize, self.vsize)
    }

    /// The image whose pixel `(x, y)` is the clamped colour that stands in
    /// `colors` in the place of that pixel in `pixels`.
    pub fn render(&self, colors: &Vec<Color>) -> (canvas: Canvas)
        requires
            self.hsize * self.vsize * 16 <= isize::MAX,
            colors@.len() == self.hsize * self.vsize,
        ensures
            canvas.wf(),
            canvas.width == self.hsize,
            canvas.height == self.vsize,
            forall|x: int, y: int|
                0 <= x < self.hsize && 0 <= y < self.vsize ==> #[trigger] canvas.pixel(x, y)
                    == colors@[place_of(x, y, self.vsize as int)].unit(),
    {
        let pairs = self.pixels();
        let mut canvas = Canvas::new(self.hsize, self.vsize);
        let mut k: usize = 0;
        while k < pairs.len()
            invariant
                k <= pairs@.len(),
                pairs@.len() == self.hsize * self.vsize,
                colors@.len() == pairs@.len(),
                forall|i: int|
                    0 <= i < pairs@.len() ==> pairs@[i] == pixel_in_place(i, self.vsize as int),
                forall|i: int|
                    0 <= i < pairs@.len() ==> (#[trigger] pairs@[i]).0 < self.hsize && pairs@[i].1
                        < self.vsize,
                canvas.wf(),
                canvas.width == self.hsize,
                canvas.height == self.vsize,
                forall|x: int, y: int|
                    0 <= x < self.hsize && 0 <= y < self.vsize && x * self.vsize + y < k
                        ==> canvas.pixel(x, y) == colors@[x * self.vsize + y].unit(),
            decreases pairs@.len() - k,
        {
            let (px, py) = pairs[k];
            let ghost before = canvas;
            canvas.write_pixel(px, py, colors[k]);
            proof {
                lemma_fundamental_div_mod(k as int, self.vsize as int);
                assert(self.vsize * px == px * self.vsize) by (nonlinear_arith);
                assert(px * self.vsize + py == k);
                lemma_index_in_range(px as int, py as int, self.hsize as int, self.vsize as int);
                assert forall|x: int, y: int|
                    0 <= x < self.hsize && 0 <= y < self.vsize && x * self.vsize + y < k
                        + 1 implies canvas.pixel(x, y) == colors@[x * self.vsize + y].unit() by {
                    lemma_index_in_range(x, y, self.hsize as int, self.vsize as int);
                    if x * self.vsize + y == k {
                        lemma_fundamental_div_mod_converse(k as int, self.vsize as int, x, y);
                        assert(x == px && y == py);
                    } else {
                        assert(before.pixel(x, y) == colors@[x * self.vsize + y].unit());
                        if y == py {
                            assert(x != px);
                        }
                        assert(y * self.hsize + x != py * self.hsize + px) by (nonlinear_arith)
                            requires
                                0 <= x < self.hsize,
                                0 <= px < self.hsize,
                                0 <= y,
                                0 <= py,
                                x != px || y != py,
                        ;
                    }
                }
            }
            k = k + 1;
        }
        proof {
            assert forall|x: int, y: int|
                0 <= x < self.hsize && 0 <= y < self.vsize implies #[trigger] canvas.pixel(x, y)
                == colors@[x * self.vsize + y].unit() by {
                lemma_index_in_range(y, x, self.vsize as int, self.hsize as int);
                assert(self.vsize * self.hsize == self.hsize * self.vsize) by (nonlinear_arith);
            }
        }
        canvas
    }
}

/// The pixel in place `k` lies inside the image.
pub proof fn lemma_place_in_image(k: int, hsize: int, vsize: int)
    requires
        0 <= k < hsize * vsize,
        0 <= hsize,
        0 <= vsize,
    ensures
        0 <= k / vsize < hsize,
        0 <= k % vsize < vsize,
{
    assert(vsize > 0) by (nonlinear_arith)
        requires
            0 <= k < hsize * vsize,
            0 <= hsize,
            0 <= vsize,
    ;
    lemma_fundamental_div_mod(k, vsize);
    let q = k / vsize;
    let r = k % vsize;
    assert(0 <= q < hsize) by (nonlinear_arith)
        requires
            0 <= k < hsize * vsize,
            k == vsize * q + r,
            0 <= r < vsize,
    ;
}

} // verus!
