use crate::scalar::{Scalar, ONE_BITS};
use vstd::arithmetic::div_mod::{
    lemma_fundamental_div_mod, lemma_fundamental_div_mod_converse, lemma_mod_bound,
};
use crate::tolerance::close;
use std::ops::Neg;
use vstd::prelude::*;
use vstd::slice::{slice_subrange, slice_to_vec};
use vstd::std_specs::cmp::PartialEqSpecImpl;

verus! {

/// The mathematical content of a square matrix: its side and its cells, row
/// by row.
pub struct Grid {
    pub dim: nat,
    pub cells: Seq<Scalar>,
}

impl Grid {
    /// Whether there is one cell for each place.
    pub open spec fn wf(self) -> bool {
        self.cells.len() == self.dim * self.dim
    }

    /// The cell in row `row` and column `col`.
    pub open spec fn at(self, row: int, col: int) -> Scalar {
        self.cells[row * self.dim + col]
    }

    /// The grid mirrored at its diagonal.
    pub open spec fn transposed(self) -> Grid {
        Grid {
            dim: self.dim,
            cells: Seq::new(
                self.dim * self.dim,
                |k: int| self.at(k % (self.dim as int), k / (self.dim as int)),
            ),
        }
    }

    /// The grid without row `row` and column `col`.
    pub open spec fn without(self, row: int, col: int) -> Grid {
        let side = (self.dim - 1) as nat;
        Grid {
            dim: side,
            cells: Seq::new(
                side * side,
                |k: int|
                    self.at(
                        skip(k / (side as int), row),
                        skip(k % (side as int), col),
                    ),
            ),
        }
    }

    /// The four by four identity.
    pub open spec fn identity() -> Grid {
        Grid {
            dim: 4,
            cells: Seq::new(
                16,
                |k: int|
                    if k / 4 == k % 4 {
                        Scalar { bits: ONE_BITS }
                    } else {
                        Scalar { bits: 0 }
                    },
            ),
        }
    }
}

/// The index in the full grid of what has index `i` once `removed` is left
/// out.
pub open spec fn skip(i: int, removed: int) -> int {
    if i < removed {
        i
    } else {
        i + 1
    }
}

/// A square matrix of side `dim`, stored row by row. Two matrices are equal
/// where they have the same side and each element of the one is close to
/// that of the other.
#[derive(Debug)]
pub struct Matrix {
    pub dim: usize,
    pub elems: Vec<Scalar>,
}

impl View for Matrix {
    type V = Grid;

    open spec fn view(&self) -> Grid {
        Grid { dim: self.dim as nat, cells: self.elems@ }
    }
}

impl Matrix {
    /// Whether there is one element for each place.
    pub open spec fn wf(&self) -> bool {
        self@.wf()
    }

    /// Whether the sides are the same and each element is close to that of
    /// `other`.
    pub open spec fn alike(&self, other: &Matrix) -> bool {
        &&& self.dim == other.dim
        &&& self.elems@.len() == other.elems@.len()
        &&& forall|i: int|
            0 <= i < self.elems@.len() ==> close(#[trigger] self.elems@[i], other.elems@[i])
    }

    /// The matrix of side `dim` whose elements, row by row, are the first
    /// `dim * dim` of `elems`.
    pub fn new(dim: usize, elems: &[Scalar]) -> (m: Matrix)
        requires
            dim * dim <= elems@.len(),
        ensures
            m.wf(),
            m@ == (Grid { dim: dim as nat, cells: elems@.take(dim * dim) }),
    {
        let given = elems.len();
        assert(dim * dim <= given);
        let used = slice_subrange(elems, 0, dim * dim);
        let m = Matrix { dim, elems: slice_to_vec(used) };
        assert(elems@.subrange(0, dim * dim) =~= elems@.take(dim * dim));
        assert(0 <= dim * dim);
        m
    }

    /// Whether a matrix with the determinant `det` can be inverted: the
    /// determinant is a number that is not close to zero.
    pub fn invertible(det: Scalar) -> (b: bool)
        ensures
            b == (!det.nan() && !close(det, Scalar { bits: 0 })),
    {
        !det.is_nan() && !det.approx_eq(Scalar::zero())
    }

    /// The four by four identity.
    pub fn identity() -> (m: Matrix)
        ensures
            m.wf(),
            m@ == Grid::identity(),
    {
        let o = Scalar::zero();
        let i = Scalar::one();
        let m = Matrix { dim: 4, elems: vec![i, o, o, o, o, i, o, o, o, o, i, o, o, o, o, i] };
        assert(m.elems@.len() == 16);
        assert(m@.dim * m@.dim == 16) by (nonlinear_arith)
            requires
                m@.dim == 4,
        ;
        assert(m@.cells =~= Grid::identity().cells);
        m
    }

    /// The element in row `row` and column `col`.
    pub fn at(&self, row: usize, col: usize) -> (e: Scalar)
        requires
            self.wf(),
            row < self.dim,
            col < self.dim,
        ensures
            e == self@.at(row as int, col as int),
    {
        proof {
            lemma_cell_in_range(row as int, col as int, self.dim as int);
            assert(self.elems.len() == self.dim * self.dim);
        }
        self.elems[row * self.dim + col]
    }

    /// The matrix mirrored at its diagonal.
    pub fn transpose(&self) -> (t: Matrix)
        requires
            self.wf(),
        ensures
            t.wf(),
            t@ == self@.transposed(),
    {
        let mut elems: Vec<Scalar> = Vec::new();
        let mut row: usize = 0;
        while row < self.dim
            invariant
                self.wf(),
                row <= self.dim,
                elems@.len() == row * self.dim,
                forall|k: int|
                    0 <= k < elems@.len() ==> elems@[k] == self@.at(
                        k % (self.dim as int),
                        k / (self.dim as int),
                    ),
            decreases self.dim - row,
        {
            let mut col: usize = 0;
            while col < self.dim
                invariant
                    self.wf(),
                    row < self.dim,
                    col <= self.dim,
                    elems@.len() == row * self.dim + col,
                    forall|k: int|
                        0 <= k < elems@.len() ==> elems@[k] == self@.at(
                            k % (self.dim as int),
                            k / (self.dim as int),
                        ),
                decreases self.dim - col,
            {
                proof {
                    lemma_fundamental_div_mod_converse(
                        row * self.dim + col,
                        self.dim as int,
                        row as int,
                        col as int,
                    );
                }
                elems.push(self.at(col, row));
                col = col + 1;
            }
            assert((row + 1) * self.dim == row * self.dim + self.dim) by (nonlinear_arith);
            row = row + 1;
        }
        let t = Matrix { dim: self.dim, elems };
        assert(t@.cells =~= self@.transposed().cells);
        t
    }

    /// The matrix without row `row` and column `col`.
    pub fn submatrix(&self, row: usize, col: usize) -> (s: Matrix)
        requires
            self.wf(),
            row < self.dim,
            col < self.dim,
        ensures
            s.wf(),
            s@ == self@.without(row as int, col as int),
    {
        let side: usize = self.dim - 1;
        let mut elems: Vec<Scalar> = Vec::new();
        let mut i: usize = 0;
        while i < side
            invariant
                self.wf(),
                row < self.dim,
                col < self.dim,
                side == self.dim - 1,
                i <= side,
                elems@.len() == i * side,
                forall|k: int|
                    0 <= k < elems@.len() ==> elems@[k] == self@.at(
                        skip(k / (side as int), row as int),
                        skip(k % (side as int), col as int),
                    ),
            decreases side - i,
        {
            let mut j: usize = 0;
            while j < side
                invariant
                    self.wf(),
                    row < self.dim,
                    col < self.dim,
                    side == self.dim - 1,
                    i < side,
                    j <= side,
                    elems@.len() == i * side + j,
                    forall|k: int|
                        0 <= k < elems@.len() ==> elems@[k] == self@.at(
                            skip(k / (side as int), row as int),
                            skip(k % (side as int), col as int),
                        ),
                decreases side - j,
            {
                proof {
                    lemma_fundamental_div_mod_converse(
                        i * side + j,
                        side as int,
                        i as int,
                        j as int,
                    );
                }
                let from_row: usize = if i < row {
                    i
                } else {
                    i + 1
                };
                let from_col: usize = if j < col {
                    j
                } else {
                    j + 1
                };
                elems.push(self.at(from_row, from_col));
                j = j + 1;
            }
            assert((i + 1) * side == i * side + side) by (nonlinear_arith);
            i = i + 1;
        }
        let s = Matrix { dim: side, elems };
        assert(s@.cells =~= self@.without(row as int, col as int).cells);
        s
    }

    /// The cofactor that belongs to a minor: the minor itself where `row +
    /// col` is even, its opposite where it is odd.
    pub fn cofactor(row: usize, col: usize, minor: Scalar) -> (c: Scalar)
        ensures
            (row + col) % 2 == 0 ==> c == minor,
            (row + col) % 2 != 0 ==> c == minor.negated(),
    {
        if row % 2 == col % 2 {
            minor
        } else {
            minor.neg()
        }
    }
}

impl PartialEq for Matrix {
    fn eq(&self, other: &Self) -> (b: bool) {
        if self.dim != other.dim || self.elems.len() != other.elems.len() {
            return false;
        }
        let mut i: usize = 0;
        while i < self.elems.len()
            invariant
                i <= self.elems@.len(),
                self.elems@.len() == other.elems@.len(),
                forall|k: int| 0 <= k < i ==> close(#[trigger] self.elems@[k], other.elems@[k]),
            decreases self.elems@.len() - i,
        {
            if !self.elems[i].approx_eq(other.elems[i]) {
                return false;
            }
            i = i + 1;
        }
        true
    }
}

impl PartialEqSpecImpl for Matrix {
    open spec fn obeys_eq_spec() -> bool {
        true
    }

    open spec fn eq_spec(&self, other: &Self) -> bool {
        self.alike(other)
    }
}

/// A cell inside a square grid has its place inside the grid's storage.
pub proof fn lemma_cell_in_range(row: int, col: int, dim: int)
    requires
        0 <= row < dim,
        0 <= col < dim,
    ensures
        0 <= row * dim + col < dim * dim,
        0 <= row * dim < dim * dim,
{
    assert(row * dim + col < dim * dim) by (nonlinear_arith)
        requires
            0 <= row < dim,
            0 <= col < dim,
    {
        assert((row + 1) * dim <= dim * dim);
    }
    assert(0 <= row * dim) by (nonlinear_arith)
        requires
            0 <= row,
            0 <= dim,
    ;
}

/// The cell of the transposed grid in row `row` and column `col` is the
/// cell of the grid in row `col` and column `row`.
pub proof fn lemma_transposed_at(g: Grid, row: int, col: int)
    requires
        g.wf(),
        0 <= row < g.dim,
        0 <= col < g.dim,
    ensures
        g.transposed().wf(),
        g.transposed().at(row, col) == g.at(col, row),
{
    lemma_cell_in_range(row, col, g.dim as int);
    lemma_fundamental_div_mod_converse(row * g.dim + col, g.dim as int, row, col);
}

/// Transposing twice gives the grid back.
pub proof fn lemma_transpose_involutive(g: Grid)
    requires
        g.wf(),
    ensures
        g.transposed().transposed() == g,
{
    let t = g.transposed();
    let d = g.dim as int;
    assert forall|k: int| 0 <= k < g.cells.len() implies t.transposed().cells[k] == g.cells[k] by {
        assert(d > 0) by (nonlinear_arith)
            requires
                d >= 0,
                0 <= k < d * d,
        ;
        lemma_fundamental_div_mod(k, d);
        lemma_mod_bound(k, d);
        let r = k / d;
        let c = k % d;
        assert(0 <= r < d) by (nonlinear_arith)
            requires
                0 <= k < d * d,
                k == d * r + c,
                0 <= c < d,
        ;
        assert(d * r == r * d) by (nonlinear_arith);
        lemma_transposed_at(g, c, r);
        assert(t.at(c, r) == g.at(r, c));
    }
    assert(t.transposed().cells =~= g.cells);
}

/// The transposed identity is the identity.
pub proof fn lemma_transpose_identity()
    ensures
        Grid::identity().transposed() == Grid::identity(),
{
    let i = Grid::identity();
    assert forall|k: int| 0 <= k < 16 implies i.transposed().cells[k] == i.cells[k] by {
        let r = k % 4;
        let c = k / 4;
        assert((r * 4 + c) / 4 == r && (r * 4 + c) % 4 == c);
    }
    assert(i.transposed().cells =~= i.cells);
}

} // verus!
