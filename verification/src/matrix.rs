//! The fixed-size matrix container the matrix link multiplies against:
//! a rows-by-columns grid of element values, addressable by row, with
//! the builders, flattenings and reductions of the container's API.

use vstd::prelude::*;
use crate::vector::{Vector, fits_i64, spec_dot, spec_sum};

verus! {

/// A matrix of `R` rows and `C` columns of element values.
pub struct Mat<const R: usize, const C: usize> {
    data: Vec<Vec<i64>>,
}

impl<const R: usize, const C: usize> View for Mat<R, C> {
    type V = Seq<Seq<i64>>;

    closed spec fn view(&self) -> Seq<Seq<i64>> {
        self.data@.map_values(|row: Vec<i64>| row@)
    }
}

impl<const R: usize, const C: usize> Mat<R, C> {
    /// The shape invariant: `R` rows, each of `C` values.
    pub open spec fn wf(self) -> bool {
        &&& self@.len() == R as int
        &&& forall|i: int| 0 <= i < R as int ==> (#[trigger] self@[i]).len() == C as int
    }

    /// The constructor from a nested grid, one inner row per matrix
    /// row in order.
    pub fn new(data: Vec<Vec<i64>>) -> (r: Mat<R, C>)
        requires
            data@.len() == R as int,
            forall|i: int| 0 <= i < R as int ==> (#[trigger] data@[i])@.len() == C as int,
        ensures
            r.wf(),
            forall|i: int| 0 <= i < R as int ==> #[trigger] r@[i] == data@[i]@,
    {
        Mat { data }
    }

    /// The shape as a pair of row and column counts.
    pub fn shape(&self) -> (r: (usize, usize))
        ensures
            r.0 == R,
            r.1 == C,
    {
        (R, C)
    }

    /// The row count.
    pub fn rows(&self) -> (r: usize)
        ensures
            r == R,
    {
        R
    }

    /// The column count.
    pub fn cols(&self) -> (r: usize)
        ensures
            r == C,
    {
        C
    }

    /// Whether the matrix is square.
    pub fn is_square(&self) -> (r: bool)
        ensures
            r == (R == C),
    {
        R == C
    }

    /// Reads one cell; `None` when either index is out of range.
    pub fn get(&self, row: usize, col: usize) -> (r: Option<i64>)
        requires
            self.wf(),
        ensures
            row < R && col < C ==> r == Some(self@[row as int][col as int]),
            !(row < R && col < C) ==> r is None,
    {
        if row < R && col < C {
            proof {
                assert(self@[row as int] == self.data@[row as int]@);
            }
            Some(self.data[row][col])
        } else {
            None
        }
    }

    /// Writes one cell; an out-of-range index leaves the matrix
    /// unchanged and reports the error.
    pub fn set(&mut self, row: usize, col: usize, value: i64) -> (r: Result<(), &'static str>)
        requires
            old(self).wf(),
        ensures
            final(self).wf(),
            row < R && col < C ==> {
                &&& r is Ok
                &&& final(self)@ == old(self)@.update(
                    row as int,
                    old(self)@[row as int].update(col as int, value),
                )
            },
            !(row < R && col < C) ==> {
                &&& r matches Err(m) && m@ == "Index out of bounds"@
                &&& final(self)@ == old(self)@
            },
    {
        if row >= R || col >= C {
            return Err("Index out of bounds");
        }
        proof {
            assert(self@[row as int] == self.data@[row as int]@);
        }
        self.data[row][col] = value;
        proof {
            assert(self@ =~= old(self)@.update(
                row as int,
                old(self)@[row as int].update(col as int, value),
            ));
        }
        Ok(())
    }
}

/// The identity grid: ones on the diagonal, zeros elsewhere.
pub open spec fn spec_identity(n: int) -> Seq<Seq<i64>> {
    Seq::new(n as nat, |i: int| Seq::new(n as nat, |j: int| if i == j { 1i64 } else { 0i64 }))
}

impl<const R: usize, const C: usize> Mat<R, C> {
    /// A matrix with every cell set to one value.
    fn filled(value: i64) -> (r: Mat<R, C>)
        ensures
            r.wf(),
            forall|i: int, j: int|
                0 <= i < R as int && 0 <= j < C as int ==> #[trigger] r@[i][j] == value,
    {
        let mut data: Vec<Vec<i64>> = Vec::new();
        let mut i: usize = 0;
        while i < R
            invariant
                0 <= i <= R,
                data@.len() == i,
                forall|k: int| 0 <= k < i ==> (#[trigger] data@[k])@.len() == C as int,
                forall|k: int, j: int|
                    0 <= k < i && 0 <= j < C as int ==> #[trigger] data@[k]@[j] == value,
            decreases R - i,
        {
            let mut row: Vec<i64> = Vec::new();
            let mut j: usize = 0;
            while j < C
                invariant
                    0 <= j <= C,
                    row@.len() == j,
                    forall|l: int| 0 <= l < j ==> row@[l] == value,
                decreases C - j,
            {
                row.push(value);
                j = j + 1;
            }
            data.push(row);
            i = i + 1;
        }
        Mat { data }
    }

    /// A matrix of zeros.
    pub fn zeros() -> (r: Mat<R, C>)
        ensures
            r.wf(),
            forall|i: int, j: int|
                0 <= i < R as int && 0 <= j < C as int ==> #[trigger] r@[i][j] == 0,
    {
        Self::filled(0)
    }

    /// A matrix of ones.
    pub fn ones() -> (r: Mat<R, C>)
        ensures
            r.wf(),
            forall|i: int, j: int|
                0 <= i < R as int && 0 <= j < C as int ==> #[trigger] r@[i][j] == 1,
    {
        Self::filled(1)
    }

    /// The transposed matrix: cell `(j, i)` of the result is cell
    /// `(i, j)` of the receiver.
    pub fn transpose(&self) -> (r: Mat<C, R>)
        requires
            self.wf(),
        ensures
            r.wf(),
            forall|i: int, j: int|
                0 <= i < R as int && 0 <= j < C as int ==> #[trigger] r@[j][i] == self@[i][j],
    {
        let mut data: Vec<Vec<i64>> = Vec::new();
        let mut j: usize = 0;
        while j < C
            invariant
                0 <= j <= C,
                self.wf(),
                data@.len() == j,
                forall|k: int| 0 <= k < j ==> (#[trigger] data@[k])@.len() == R as int,
                forall|k: int, i: int|
                    0 <= k < j && 0 <= i < R as int ==> #[trigger] data@[k]@[i] == self@[i][k],
            decreases C - j,
        {
            let mut row: Vec<i64> = Vec::new();
            let mut i: usize = 0;
            while i < R
                invariant
                    0 <= i <= R,
                    0 <= j < C,
                    self.wf(),
                    row@.len() == i,
                    forall|l: int| 0 <= l < i ==> row@[l] == self@[l][j as int],
                decreases R - i,
            {
                proof {
                    assert(self@[i as int] == self.data@[i as int]@);
                }
                row.push(self.data[i][j]);
                i = i + 1;
            }
            data.push(row);
            j = j + 1;
        }
        Mat::<C, R> { data }
    }
}

impl<const N: usize> Mat<N, N> {
    /// The identity matrix: ones on the diagonal, zeros elsewhere.
    pub fn identity() -> (r: Mat<N, N>)
        ensures
            r.wf(),
            r@ == spec_identity(N as int),
    {
        let mut m = Mat::<N, N>::zeros();
        let mut i: usize = 0;
        while i < N
            invariant
                0 <= i <= N,
                m.wf(),
                forall|k: int, j: int|
                    0 <= k < N as int && 0 <= j < N as int && k != j ==> #[trigger] m@[k][j] == 0,
                forall|k: int| 0 <= k < i ==> #[trigger] m@[k][k] == 1,
                forall|k: int| i <= k < N as int ==> #[trigger] m@[k][k] == 0,
            decreases N - i,
        {
            let _ = m.set(i, i, 1);
            i = i + 1;
        }
        proof {
            assert(m@ =~~= spec_identity(N as int));
        }
        m
    }

    /// The diagonal matrix holding the given values on the diagonal
    /// and zeros elsewhere.
    pub fn diag(diagonal: &[i64]) -> (r: Mat<N, N>)
        requires
            diagonal@.len() == N as int,
        ensures
            r.wf(),
            forall|i: int, j: int|
                0 <= i < N as int && 0 <= j < N as int ==> #[trigger] r@[i][j] == (if i == j {
                    diagonal@[i]
                } else {
                    0i64
                }),
    {
        let mut m = Mat::<N, N>::zeros();
        let mut i: usize = 0;
        while i < N
            invariant
                0 <= i <= N,
                diagonal@.len() == N as int,
                m.wf(),
                forall|k: int, j: int|
                    0 <= k < N as int && 0 <= j < N as int && k != j ==> #[trigger] m@[k][j] == 0,
                forall|k: int| 0 <= k < i ==> #[trigger] m@[k][k] == diagonal@[k],
                forall|k: int| i <= k < N as int ==> #[trigger] m@[k][k] == 0,
            decreases N - i,
        {
            let _ = m.set(i, i, diagonal[i]);
            i = i + 1;
        }
        m
    }
}

/// The first `count` cells of a grid in row-major order.
pub open spec fn spec_flat_rm(m: Seq<Seq<i64>>, cols: int, count: int) -> Seq<i64> {
    Seq::new(count as nat, |k: int| m[k / cols][k % cols])
}

/// The first `count` cells of a grid in column-major order.
pub open spec fn spec_flat_cm(m: Seq<Seq<i64>>, rows: int, count: int) -> Seq<i64> {
    Seq::new(count as nat, |k: int| m[k % rows][k / rows])
}

impl<const R: usize, const C: usize> Mat<R, C> {
    /// The rectangle of `R1` by `C1` cells starting at `(I, J)`; cells
    /// past the receiver's edge are zero.
    pub fn submatrix<const I: usize, const J: usize, const R1: usize, const C1: usize>(
        &self,
    ) -> (r: Mat<R1, C1>)
        requires
            self.wf(),
            I + R1 <= usize::MAX,
            J + C1 <= usize::MAX,
        ensures
            r.wf(),
            forall|i: int, j: int|
                0 <= i < R1 as int && 0 <= j < C1 as int ==> #[trigger] r@[i][j] == (if I + i
                    < R as int && J + j < C as int {
                    self@[I + i][J + j]
                } else {
                    0i64
                }),
    {
        let mut data: Vec<Vec<i64>> = Vec::new();
        let mut i: usize = 0;
        while i < R1
            invariant
                0 <= i <= R1,
                self.wf(),
                I + R1 <= usize::MAX,
                J + C1 <= usize::MAX,
                data@.len() == i,
                forall|k: int| 0 <= k < i ==> (#[trigger] data@[k])@.len() == C1 as int,
                forall|k: int, j: int|
                    0 <= k < i && 0 <= j < C1 as int ==> #[trigger] data@[k]@[j] == (if I + k
                        < R as int && J + j < C as int {
                        self@[I + k][J + j]
                    } else {
                        0i64
                    }),
            decreases R1 - i,
        {
            let mut row: Vec<i64> = Vec::new();
            let mut j: usize = 0;
            while j < C1
                invariant
                    0 <= j <= C1,
                    0 <= i < R1,
                    self.wf(),
                    I + R1 <= usize::MAX,
                    J + C1 <= usize::MAX,
                    row@.len() == j,
                    forall|l: int|
                        0 <= l < j ==> #[trigger] row@[l] == (if I + i < R as int && J + l
                            < C as int {
                            self@[I + i as int][J + l]
                        } else {
                            0i64
                        }),
                decreases C1 - j,
            {
                let cell = if I + i < R && J + j < C {
                    proof {
                        assert(self@[I + i as int] == self.data@[I + i as int]@);
                    }
                    self.data[I + i][J + j]
                } else {
                    0
                };
                row.push(cell);
                j = j + 1;
            }
            data.push(row);
            i = i + 1;
        }
        Mat::<R1, C1> { data }
    }

    /// Every cell in row-major order.
    pub fn flatten_row_major(&self) -> (r: Vec<i64>)
        requires
            self.wf(),
        ensures
            r@ == spec_flat_rm(self@, C as int, (R as int) * (C as int)),
    {
        let mut elems: Vec<i64> = Vec::new();
        let mut i: usize = 0;
        proof {
            assert(elems@ =~= spec_flat_rm(self@, C as int, 0));
        }
        while i < R
            invariant
                0 <= i <= R,
                self.wf(),
                elems@.len() == (i as int) * (C as int),
                elems@ == spec_flat_rm(self@, C as int, (i as int) * (C as int)),
            decreases R - i,
        {
            let mut j: usize = 0;
            while j < C
                invariant
                    0 <= j <= C,
                    0 <= i < R,
                    self.wf(),
                    elems@.len() == (i as int) * (C as int) + j,
                    elems@ == spec_flat_rm(self@, C as int, (i as int) * (C as int) + j),
                decreases C - j,
            {
                proof {
                    assert(self@[i as int] == self.data@[i as int]@);
                }
                elems.push(self.data[i][j]);
                proof {
                    let n = (i as int) * (C as int) + (j as int);
                    vstd::arithmetic::div_mod::lemma_fundamental_div_mod_converse(
                        n,
                        C as int,
                        i as int,
                        j as int,
                    );
                    assert(elems@ =~= spec_flat_rm(self@, C as int, n + 1));
                }
                j = j + 1;
            }
            proof {
                assert((i as int + 1) * (C as int) == (i as int) * (C as int) + (C as int))
                    by (nonlinear_arith);
            }
            i = i + 1;
        }
        elems
    }

    /// Every cell in column-major order.
    pub fn flatten_col_major(&self) -> (r: Vec<i64>)
        requires
            self.wf(),
        ensures
            r@ == spec_flat_cm(self@, R as int, (R as int) * (C as int)),
    {
        let mut elems: Vec<i64> = Vec::new();
        let mut j: usize = 0;
        proof {
            assert(elems@ =~= spec_flat_cm(self@, R as int, 0));
        }
        while j < C
            invariant
                0 <= j <= C,
                self.wf(),
                elems@.len() == (j as int) * (R as int),
                elems@ == spec_flat_cm(self@, R as int, (j as int) * (R as int)),
            decreases C - j,
        {
            let mut i: usize = 0;
            while i < R
                invariant
                    0 <= i <= R,
                    0 <= j < C,
                    self.wf(),
                    elems@.len() == (j as int) * (R as int) + i,
                    elems@ == spec_flat_cm(self@, R as int, (j as int) * (R as int) + i),
                decreases R - i,
            {
                proof {
                    assert(self@[i as int] == self.data@[i as int]@);
                }
                elems.push(self.data[i][j]);
                proof {
                    let n = (j as int) * (R as int) + (i as int);
                    vstd::arithmetic::div_mod::lemma_fundamental_div_mod_converse(
                        n,
                        R as int,
                        j as int,
                        i as int,
                    );
                    assert(elems@ =~= spec_flat_cm(self@, R as int, n + 1));
                }
                i = i + 1;
            }
            proof {
                assert((j as int + 1) * (R as int) == (j as int) * (R as int) + (R as int))
                    by (nonlinear_arith);
            }
            j = j + 1;
        }
        proof {
            assert((C as int) * (R as int) == (R as int) * (C as int)) by (nonlinear_arith);
        }
        elems
    }

    /// The cell values in row-major order, for callers that walk the
    /// matrix one value at a time.
    pub fn iter(&self) -> (r: Vec<i64>)
        requires
            self.wf(),
        ensures
            r@ == spec_flat_rm(self@, C as int, (R as int) * (C as int)),
    {
        self.flatten_row_major()
    }

    /// The rows in order, for callers that walk the matrix one row at
    /// a time.
    pub fn rows_iter(&self) -> (r: Vec<Vec<i64>>)
        requires
            self.wf(),
        ensures
            r@.len() == R as int,
            forall|i: int| 0 <= i < R as int ==> (#[trigger] r@[i])@ == self@[i],
    {
        let mut out: Vec<Vec<i64>> = Vec::new();
        let mut i: usize = 0;
        while i < R
            invariant
                0 <= i <= R,
                self.wf(),
                out@.len() == i,
                forall|k: int| 0 <= k < i ==> (#[trigger] out@[k])@ == self@[k],
            decreases R - i,
        {
            let mut row: Vec<i64> = Vec::new();
            let mut j: usize = 0;
            while j < C
                invariant
                    0 <= j <= C,
                    0 <= i < R,
                    self.wf(),
                    row@.len() == j,
                    forall|l: int| 0 <= l < j ==> row@[l] == self@[i as int][l],
                decreases C - j,
            {
                proof {
                    assert(self@[i as int] == self.data@[i as int]@);
                }
                row.push(self.data[i][j]);
                j = j + 1;
            }
            proof {
                assert(row@ =~= self@[i as int]);
            }
            out.push(row);
            i = i + 1;
        }
        out
    }

    /// Builds the matrix from a flat slice in row-major order; a slice
    /// of any other length is rejected.
    pub fn from_vec(v: &[i64]) -> (r: Result<Mat<R, C>, &'static str>)
        ensures
            v@.len() == (R as int) * (C as int) ==> (r matches Ok(m) && m.wf() && forall|
                i: int,
                j: int,
            |
                0 <= i < R as int && 0 <= j < C as int ==> #[trigger] m@[i][j] == v@[i * (
                C as int) + j]),
            v@.len() != (R as int) * (C as int) ==> (r matches Err(msg) && msg@
                == "Vector length does not match matrix dimensions"@),
    {
        let vlen = v.len();
        let expected = match R.checked_mul(C) {
            Some(p) => p,
            None => {
                proof {
                    assert(vlen <= usize::MAX);
                    assert((R as int) * (C as int) > usize::MAX);
                }
                return Err("Vector length does not match matrix dimensions");
            },
        };
        if vlen != expected {
            return Err("Vector length does not match matrix dimensions");
        }
        proof {
            assert((R as int) * (C as int) <= usize::MAX);
        }
        let mut data: Vec<Vec<i64>> = Vec::new();
        let mut i: usize = 0;
        while i < R
            invariant
                0 <= i <= R,
                v@.len() == (R as int) * (C as int),
                (R as int) * (C as int) <= usize::MAX,
                data@.len() == i,
                forall|k: int| 0 <= k < i ==> (#[trigger] data@[k])@.len() == C as int,
                forall|k: int, j: int|
                    0 <= k < i && 0 <= j < C as int ==> #[trigger] data@[k]@[j] == v@[k * (
                    C as int) + j],
            decreases R - i,
        {
            let mut row: Vec<i64> = Vec::new();
            let mut j: usize = 0;
            while j < C
                invariant
                    0 <= j <= C,
                    0 <= i < R,
                    v@.len() == (R as int) * (C as int),
                    (R as int) * (C as int) <= usize::MAX,
                    row@.len() == j,
                    forall|l: int|
                        0 <= l < j ==> #[trigger] row@[l] == v@[(i as int) * (C as int) + l],
                decreases C - j,
            {
                proof {
                    assert(0 <= (i as int) * (C as int) + j < (R as int) * (C as int))
                        by (nonlinear_arith)
                        requires
                            0 <= i < R as int,
                            0 <= j < C as int,
                    ;
                }
                row.push(v[i * C + j]);
                j = j + 1;
            }
            data.push(row);
            i = i + 1;
        }
        Ok(Mat { data })
    }

    /// Builds the matrix from a flat slice in column-major order; a
    /// slice of any other length is rejected.
    pub fn from_vec_col_major(v: &[i64]) -> (r: Result<Mat<R, C>, &'static str>)
        ensures
            v@.len() == (R as int) * (C as int) ==> (r matches Ok(m) && m.wf() && forall|
                i: int,
                j: int,
            |
                0 <= i < R as int && 0 <= j < C as int ==> #[trigger] m@[i][j] == v@[j * (
                R as int) + i]),
            v@.len() != (R as int) * (C as int) ==> (r matches Err(msg) && msg@
                == "Vector length does not match matrix dimensions"@),
    {
        let vlen = v.len();
        let expected = match R.checked_mul(C) {
            Some(p) => p,
            None => {
                proof {
                    assert(vlen <= usize::MAX);
                    assert((R as int) * (C as int) > usize::MAX);
                }
                return Err("Vector length does not match matrix dimensions");
            },
        };
        if vlen != expected {
            return Err("Vector length does not match matrix dimensions");
        }
        proof {
            assert((R as int) * (C as int) <= usize::MAX);
        }
        let mut data: Vec<Vec<i64>> = Vec::new();
        let mut i: usize = 0;
        while i < R
            invariant
                0 <= i <= R,
                v@.len() == (R as int) * (C as int),
                (R as int) * (C as int) <= usize::MAX,
                data@.len() == i,
                forall|k: int| 0 <= k < i ==> (#[trigger] data@[k])@.len() == C as int,
                forall|k: int, j: int|
                    0 <= k < i && 0 <= j < C as int ==> #[trigger] data@[k]@[j] == v@[j * (
                    R as int) + k],
            decreases R - i,
        {
            let mut row: Vec<i64> = Vec::new();
            let mut j: usize = 0;
            while j < C
                invariant
                    0 <= j <= C,
                    0 <= i < R,
                    v@.len() == (R as int) * (C as int),
                    (R as int) * (C as int) <= usize::MAX,
                    row@.len() == j,
                    forall|l: int|
                        0 <= l < j ==> #[trigger] row@[l] == v@[l * (R as int) + i],
                decreases C - j,
            {
                proof {
                    assert(0 <= (j as int) * (R as int) + i < (R as int) * (C as int))
                        by (nonlinear_arith)
                        requires
                            0 <= i < R as int,
                            0 <= j < C as int,
                    ;
                }
                row.push(v[j * R + i]);
                j = j + 1;
            }
            data.push(row);
            i = i + 1;
        }
        Ok(Mat { data })
    }
}

/// The product over a sequence of cells.
pub open spec fn spec_prod(a: Seq<i64>) -> int
    decreases a.len(),
{
    if a.len() == 0 {
        1
    } else {
        spec_prod(a.drop_last()) * a.last()
    }
}

/// Column `j` of a grid, top to bottom.
pub open spec fn spec_col(m: Seq<Seq<i64>>, j: int) -> Seq<i64> {
    Seq::new(m.len(), |k: int| m[k][j])
}

/// Row `i` of a matrix-by-vector product: the dot product of row `i`
/// with the vector.
pub open spec fn spec_mat_vec(m: Seq<Seq<i64>>, v: Seq<i64>) -> Seq<int> {
    Seq::new(m.len(), |i: int| spec_dot(m[i], v))
}

/// The dot product against an all-zero row is zero.
proof fn lemma_zero_dot(row: Seq<i64>, v: Seq<i64>)
    requires
        row.len() == v.len(),
        forall|i: int| 0 <= i < row.len() ==> row[i] == 0,
    ensures
        spec_dot(row, v) == 0,
    decreases row.len(),
{
    if row.len() > 0 {
        lemma_zero_dot(row.drop_last(), v.drop_last());
    }
}

/// The dot product against a unit row picks out one coordinate.
proof fn lemma_unit_dot(row: Seq<i64>, v: Seq<i64>, u: int)
    requires
        row.len() == v.len(),
        0 <= u < row.len(),
        row[u] == 1,
        forall|i: int| 0 <= i < row.len() && i != u ==> row[i] == 0,
    ensures
        spec_dot(row, v) == v[u],
    decreases row.len(),
{
    if u == row.len() - 1 {
        lemma_zero_dot(row.drop_last(), v.drop_last());
    } else {
        lemma_unit_dot(row.drop_last(), v.drop_last(), u);
    }
}

/// Multiplying the identity matrix by a vector of matching field count
/// returns that vector.
pub proof fn lemma_identity_mul_vector(v: Seq<i64>, n: int)
    requires
        0 <= n,
        v.len() == n,
    ensures
        spec_mat_vec(spec_identity(n), v).len() == n,
        forall|i: int| 0 <= i < n ==> #[trigger] spec_mat_vec(spec_identity(n), v)[i] == v[i],
{
    assert forall|i: int| 0 <= i < n implies #[trigger] spec_mat_vec(spec_identity(n), v)[i]
        == v[i] by {
        lemma_unit_dot(spec_identity(n)[i], v, i);
    }
}

impl<const R: usize, const C: usize> Mat<R, C> {
    /// Element-wise addition of two matrices of one shape.
    pub fn add(&self, rhs: &Mat<R, C>) -> (r: Mat<R, C>)
        requires
            self.wf(),
            rhs.wf(),
            forall|i: int, j: int|
                0 <= i < R as int && 0 <= j < C as int ==> fits_i64(
                    (#[trigger] self@[i][j]) + rhs@[i][j],
                ),
        ensures
            r.wf(),
            forall|i: int, j: int|
                0 <= i < R as int && 0 <= j < C as int ==> #[trigger] r@[i][j] == self@[i][j]
                    + rhs@[i][j],
    {
        let mut data: Vec<Vec<i64>> = Vec::new();
        let mut i: usize = 0;
        while i < R
            invariant
                0 <= i <= R,
                self.wf(),
                rhs.wf(),
                forall|k: int, j: int|
                    0 <= k < R as int && 0 <= j < C as int ==> fits_i64(
                        (#[trigger] self@[k][j]) + rhs@[k][j],
                    ),
                data@.len() == i,
                forall|k: int| 0 <= k < i ==> (#[trigger] data@[k])@.len() == C as int,
                forall|k: int, j: int|
                    0 <= k < i && 0 <= j < C as int ==> #[trigger] data@[k]@[j] == self@[k][j]
                        + rhs@[k][j],
            decreases R - i,
        {
            let mut row: Vec<i64> = Vec::new();
            let mut j: usize = 0;
            while j < C
                invariant
                    0 <= j <= C,
                    0 <= i < R,
                    self.wf(),
                    rhs.wf(),
                    forall|k: int, l: int|
                        0 <= k < R as int && 0 <= l < C as int ==> fits_i64(
                            (#[trigger] self@[k][l]) + rhs@[k][l],
                        ),
                    row@.len() == j,
                    forall|l: int|
                        0 <= l < j ==> #[trigger] row@[l] == self@[i as int][l] + rhs@[i as int][l],
                decreases C - j,
            {
                proof {
                    assert(self@[i as int] == self.data@[i as int]@);
                    assert(rhs@[i as int] == rhs.data@[i as int]@);
                }
                row.push(self.data[i][j] + rhs.data[i][j]);
                j = j + 1;
            }
            data.push(row);
            i = i + 1;
        }
        Mat { data }
    }

    /// Element-wise subtraction of two matrices of one shape.
    pub fn sub(&self, rhs: &Mat<R, C>) -> (r: Mat<R, C>)
        requires
            self.wf(),
            rhs.wf(),
            forall|i: int, j: int|
                0 <= i < R as int && 0 <= j < C as int ==> fits_i64(
                    (#[trigger] self@[i][j]) - rhs@[i][j],
                ),
        ensures
            r.wf(),
            forall|i: int, j: int|
                0 <= i < R as int && 0 <= j < C as int ==> #[trigger] r@[i][j] == self@[i][j]
                    - rhs@[i][j],
    {
        let mut data: Vec<Vec<i64>> = Vec::new();
        let mut i: usize = 0;
        while i < R
            invariant
                0 <= i <= R,
                self.wf(),
                rhs.wf(),
                forall|k: int, j: int|
                    0 <= k < R as int && 0 <= j < C as int ==> fits_i64(
                        (#[trigger] self@[k][j]) - rhs@[k][j],
                    ),
                data@.len() == i,
                forall|k: int| 0 <= k < i ==> (#[trigger] data@[k])@.len() == C as int,
                forall|k: int, j: int|
                    0 <= k < i && 0 <= j < C as int ==> #[trigger] data@[k]@[j] == self@[k][j]
                        - rhs@[k][j],
            decreases R - i,
        {
            let mut row: Vec<i64> = Vec::new();
            let mut j: usize = 0;
            while j < C
                invariant
                    0 <= j <= C,
                    0 <= i < R,
                    self.wf(),
                    rhs.wf(),
                    forall|k: int, l: int|
                        0 <= k < R as int && 0 <= l < C as int ==> fits_i64(
                            (#[trigger] self@[k][l]) - rhs@[k][l],
                        ),
                    row@.len() == j,
                    forall|l: int|
                        0 <= l < j ==> #[trigger] row@[l] == self@[i as int][l] - rhs@[i as int][l],
                decreases C - j,
            {
                proof {
                    assert(self@[i as int] == self.data@[i as int]@);
                    assert(rhs@[i as int] == rhs.data@[i as int]@);
                }
                row.push(self.data[i][j] - rhs.data[i][j]);
                j = j + 1;
            }
            data.push(row);
            i = i + 1;
        }
        Mat { data }
    }

    /// Every cell multiplied by a scalar.
    pub fn mul_scalar(&self, s: i64) -> (r: Mat<R, C>)
        requires
            self.wf(),
            forall|i: int, j: int|
                0 <= i < R as int && 0 <= j < C as int ==> fits_i64((#[trigger] self@[i][j]) * s),
        ensures
            r.wf(),
            forall|i: int, j: int|
                0 <= i < R as int && 0 <= j < C as int ==> #[trigger] r@[i][j] == self@[i][j] * s,
    {
        let mut data: Vec<Vec<i64>> = Vec::new();
        let mut i: usize = 0;
        while i < R
            invariant
                0 <= i <= R,
                self.wf(),
                forall|k: int, j: int|
                    0 <= k < R as int && 0 <= j < C as int ==> fits_i64(
                        (#[trigger] self@[k][j]) * s,
                    ),
                data@.len() == i,
                forall|k: int| 0 <= k < i ==> (#[trigger] data@[k])@.len() == C as int,
                forall|k: int, j: int|
                    0 <= k < i && 0 <= j < C as int ==> #[trigger] data@[k]@[j] == self@[k][j] * s,
            decreases R - i,
        {
            let mut row: Vec<i64> = Vec::new();
            let mut j: usize = 0;
            while j < C
                invariant
                    0 <= j <= C,
                    0 <= i < R,
                    self.wf(),
                    forall|k: int, l: int|
                        0 <= k < R as int && 0 <= l < C as int ==> fits_i64(
                            (#[trigger] self@[k][l]) * s,
                        ),
                    row@.len() == j,
                    forall|l: int| 0 <= l < j ==> #[trigger] row@[l] == self@[i as int][l] * s,
                decreases C - j,
            {
                proof {
                    assert(self@[i as int] == self.data@[i as int]@);
                }
                row.push(self.data[i][j] * s);
                j = j + 1;
            }
            data.push(row);
            i = i + 1;
        }
        Mat { data }
    }

    /// Every cell divided by a scalar, truncating toward zero.
    pub fn div_scalar(&self, s: i64) -> (r: Mat<R, C>)
        requires
            self.wf(),
            s != 0,
            forall|i: int, j: int|
                0 <= i < R as int && 0 <= j < C as int ==> fits_i64(
                    crate::vector::div_trunc((#[trigger] self@[i][j]) as int, s as int),
                ),
        ensures
            r.wf(),
            forall|i: int, j: int|
                0 <= i < R as int && 0 <= j < C as int ==> #[trigger] r@[i][j]
                    == crate::vector::div_trunc(self@[i][j] as int, s as int),
    {
        let mut data: Vec<Vec<i64>> = Vec::new();
        let mut i: usize = 0;
        while i < R
            invariant
                0 <= i <= R,
                self.wf(),
                s != 0,
                forall|k: int, j: int|
                    0 <= k < R as int && 0 <= j < C as int ==> fits_i64(
                        crate::vector::div_trunc((#[trigger] self@[k][j]) as int, s as int),
                    ),
                data@.len() == i,
                forall|k: int| 0 <= k < i ==> (#[trigger] data@[k])@.len() == C as int,
                forall|k: int, j: int|
                    0 <= k < i && 0 <= j < C as int ==> #[trigger] data@[k]@[j]
                        == crate::vector::div_trunc(self@[k][j] as int, s as int),
            decreases R - i,
        {
            let mut row: Vec<i64> = Vec::new();
            let mut j: usize = 0;
            while j < C
                invariant
                    0 <= j <= C,
                    0 <= i < R,
                    self.wf(),
                    s != 0,
                    forall|k: int, l: int|
                        0 <= k < R as int && 0 <= l < C as int ==> fits_i64(
                            crate::vector::div_trunc((#[trigger] self@[k][l]) as int, s as int),
                        ),
                    row@.len() == j,
                    forall|l: int|
                        0 <= l < j ==> #[trigger] row@[l] == crate::vector::div_trunc(
                            self@[i as int][l] as int,
                            s as int,
                        ),
                decreases C - j,
            {
                proof {
                    assert(self@[i as int] == self.data@[i as int]@);
                }
                let q = match self.data[i][j].checked_div(s) {
                    Some(v) => v,
                    None => {
                        proof {
                            assert(false);
                        }
                        0
                    },
                };
                row.push(q);
                j = j + 1;
            }
            data.push(row);
            i = i + 1;
        }
        Mat { data }
    }
}

impl<const R: usize, const C: usize> Mat<R, C> {
    /// The sum over every cell, in row-major order.
    pub fn sum(&self) -> (r: i64)
        requires
            self.wf(),
            forall|k: int|
                0 <= k <= (R as int) * (C as int) ==> fits_i64(
                    #[trigger] spec_sum(
                        spec_flat_rm(self@, C as int, (R as int) * (C as int)).take(k),
                    ),
                ),
        ensures
            r == spec_sum(spec_flat_rm(self@, C as int, (R as int) * (C as int))),
    {
        let flat = self.flatten_row_major();
        let v = Vector::new(flat);
        v.sum()
    }

    /// The product over every cell, in row-major order.
    pub fn product(&self) -> (r: i64)
        requires
            self.wf(),
            forall|k: int|
                0 <= k <= (R as int) * (C as int) ==> fits_i64(
                    #[trigger] spec_prod(
                        spec_flat_rm(self@, C as int, (R as int) * (C as int)).take(k),
                    ),
                ),
        ensures
            r == spec_prod(spec_flat_rm(self@, C as int, (R as int) * (C as int))),
    {
        let flat = self.flatten_row_major();
        let ghost full = spec_flat_rm(self@, C as int, (R as int) * (C as int));
        let n = flat.len();
        let mut acc: i64 = 1;
        let mut i: usize = 0;
        proof {
            assert(flat@.take(0) =~= Seq::<i64>::empty());
        }
        while i < n
            invariant
                0 <= i <= n,
                n == flat@.len(),
                flat@ == full,
                acc == spec_prod(flat@.take(i as int)),
                forall|k: int| 0 <= k <= full.len() ==> fits_i64(#[trigger] spec_prod(full.take(k))),
            decreases n - i,
        {
            proof {
                assert(flat@.take(i + 1).drop_last() =~= flat@.take(i as int));
                assert(flat@.take(i + 1).last() == flat@[i as int]);
                assert(fits_i64(spec_prod(flat@.take(i + 1))));
            }
            let prev = acc;
            let cell = flat[i];
            let next = match prev.checked_mul(cell) {
                Some(v) => v,
                None => {
                    proof {
                        assert(false);
                    }
                    0
                },
            };
            acc = next;
            i = i + 1;
        }
        proof {
            assert(flat@.take(n as int) =~= flat@);
        }
        acc
    }

    /// Matrix multiplication: cell `(i, j)` of the result is the dot
    /// product of row `i` of the receiver with column `j` of the
    /// right-hand matrix.
    pub fn matmul<const C2: usize>(&self, rhs: &Mat<C, C2>) -> (r: Mat<R, C2>)
        requires
            self.wf(),
            rhs.wf(),
            forall|i: int, j: int, k: int|
                0 <= i < R as int && 0 <= j < C2 as int && 0 <= k < C as int ==> fits_i64(
                    #[trigger] (self@[i][k] * rhs@[k][j]),
                ),
            forall|i: int, j: int, k: int|
                0 <= i < R as int && 0 <= j < C2 as int && 0 <= k <= C as int ==> fits_i64(
                    #[trigger] spec_dot(self@[i].take(k), spec_col(rhs@, j).take(k)),
                ),
        ensures
            r.wf(),
            forall|i: int, j: int|
                0 <= i < R as int && 0 <= j < C2 as int ==> #[trigger] r@[i][j] == spec_dot(
                    self@[i],
                    spec_col(rhs@, j),
                ),
    {
        let mut data: Vec<Vec<i64>> = Vec::new();
        let mut i: usize = 0;
        while i < R
            invariant
                0 <= i <= R,
                self.wf(),
                rhs.wf(),
                forall|a: int, b: int, k: int|
                    0 <= a < R as int && 0 <= b < C2 as int && 0 <= k < C as int ==> fits_i64(
                        #[trigger] (self@[a][k] * rhs@[k][b]),
                    ),
                forall|a: int, b: int, k: int|
                    0 <= a < R as int && 0 <= b < C2 as int && 0 <= k <= C as int ==> fits_i64(
                        #[trigger] spec_dot(self@[a].take(k), spec_col(rhs@, b).take(k)),
                    ),
                data@.len() == i,
                forall|a: int| 0 <= a < i ==> (#[trigger] data@[a])@.len() == C2 as int,
                forall|a: int, b: int|
                    0 <= a < i && 0 <= b < C2 as int ==> #[trigger] data@[a]@[b] == spec_dot(
                        self@[a],
                        spec_col(rhs@, b),
                    ),
            decreases R - i,
        {
            proof {
                assert(self@[i as int] == self.data@[i as int]@);
            }
            let row_v = Vector::from_slice(self.data[i].as_slice());
            let mut row: Vec<i64> = Vec::new();
            let mut j: usize = 0;
            while j < C2
                invariant
                    0 <= j <= C2,
                    0 <= i < R,
                    self.wf(),
                    rhs.wf(),
                    row_v@ == self@[i as int],
                    forall|a: int, b: int, k: int|
                        0 <= a < R as int && 0 <= b < C2 as int && 0 <= k < C as int ==> fits_i64(
                            #[trigger] (self@[a][k] * rhs@[k][b]),
                        ),
                    forall|a: int, b: int, k: int|
                        0 <= a < R as int && 0 <= b < C2 as int && 0 <= k <= C as int ==> fits_i64(
                            #[trigger] spec_dot(self@[a].take(k), spec_col(rhs@, b).take(k)),
                        ),
                    row@.len() == j,
                    forall|b: int|
                        0 <= b < j ==> #[trigger] row@[b] == spec_dot(
                            self@[i as int],
                            spec_col(rhs@, b),
                        ),
                decreases C2 - j,
            {
                let mut col: Vec<i64> = Vec::new();
                let mut k: usize = 0;
                while k < C
                    invariant
                        0 <= k <= C,
                        0 <= j < C2,
                        rhs.wf(),
                        col@.len() == k,
                        forall|l: int| 0 <= l < k ==> col@[l] == rhs@[l][j as int],
                    decreases C - k,
                {
                    proof {
                        assert(rhs@[k as int] == rhs.data@[k as int]@);
                    }
                    col.push(rhs.data[k][j]);
                    k = k + 1;
                }
                let col_v = Vector::new(col);
                proof {
                    assert(col_v@ =~= spec_col(rhs@, j as int));
                }
                let entry = row_v.dot(&col_v);
                row.push(entry);
                j = j + 1;
            }
            data.push(row);
            i = i + 1;
        }
        Mat { data }
    }

    /// The emitted matrix-link operator's semantics: one dot product
    /// per row against the vector, the results in row order.
    pub fn mul_vector(&self, v: &Vector) -> (r: Vector)
        requires
            self.wf(),
            v@.len() == C as int,
            forall|i: int, k: int|
                0 <= i < R as int && 0 <= k < C as int ==> fits_i64((#[trigger] self@[i][k]) * v@[k]),
            forall|i: int, k: int|
                0 <= i < R as int && 0 <= k <= C as int ==> fits_i64(
                    #[trigger] spec_dot(self@[i].take(k), v@.take(k)),
                ),
        ensures
            r@.len() == R as int,
            forall|i: int| 0 <= i < R as int ==> r@[i] == spec_mat_vec(self@, v@)[i],
    {
        let mut out: Vec<i64> = Vec::new();
        let mut i: usize = 0;
        while i < R
            invariant
                0 <= i <= R,
                self.wf(),
                v@.len() == C as int,
                forall|a: int, k: int|
                    0 <= a < R as int && 0 <= k < C as int ==> fits_i64(
                        (#[trigger] self@[a][k]) * v@[k],
                    ),
                forall|a: int, k: int|
                    0 <= a < R as int && 0 <= k <= C as int ==> fits_i64(
                        #[trigger] spec_dot(self@[a].take(k), v@.take(k)),
                    ),
                out@.len() == i,
                forall|a: int| 0 <= a < i ==> out@[a] == spec_dot(self@[a], v@),
            decreases R - i,
        {
            proof {
                assert(self@[i as int] == self.data@[i as int]@);
            }
            let row_v = Vector::from_slice(self.data[i].as_slice());
            let entry = row_v.dot(v);
            out.push(entry);
            i = i + 1;
        }
        Vector::new(out)
    }
}

impl<const R: usize, const C: usize> Default for Mat<R, C> {
    /// The all-zero matrix.
    fn default() -> (r: Self)
        ensures
            r.wf(),
            forall|i: int, j: int|
                0 <= i < R as int && 0 <= j < C as int ==> #[trigger] r@[i][j] == 0,
    {
        Self::zeros()
    }
}

impl<const R: usize, const C: usize> Clone for Mat<R, C> {
    /// A cell-for-cell copy.
    fn clone(&self) -> (r: Self)
        ensures
            r@ == self@,
    {
        let n = self.data.len();
        let mut data: Vec<Vec<i64>> = Vec::new();
        let mut i: usize = 0;
        while i < n
            invariant
                0 <= i <= n,
                n == self.data@.len(),
                data@.len() == i,
                forall|k: int| 0 <= k < i ==> (#[trigger] data@[k])@ == self.data@[k]@,
            decreases n - i,
        {
            let m = self.data[i].len();
            let mut row: Vec<i64> = Vec::new();
            let mut j: usize = 0;
            while j < m
                invariant
                    0 <= j <= m,
                    0 <= i < n,
                    n == self.data@.len(),
                    m == self.data@[i as int]@.len(),
                    row@.len() == j,
                    forall|l: int| 0 <= l < j ==> row@[l] == self.data@[i as int]@[l],
                decreases m - j,
            {
                row.push(self.data[i][j]);
                j = j + 1;
            }
            proof {
                assert(row@ =~= self.data@[i as int]@);
            }
            data.push(row);
            i = i + 1;
        }
        let r = Mat::<R, C> { data };
        proof {
            assert(r@ =~~= self@);
        }
        r
    }
}

impl<const R: usize, const C: usize> PartialEq for Mat<R, C> {
    /// Structural, cell-by-cell equality.
    fn eq(&self, other: &Self) -> (r: bool) {
        let n = self.data.len();
        if n != other.data.len() {
            proof {
                assert(self@.len() != other@.len());
            }
            return false;
        }
        let mut i: usize = 0;
        while i < n
            invariant
                0 <= i <= n,
                n == self.data@.len() == other.data@.len(),
                forall|k: int| 0 <= k < i ==> (#[trigger] self@[k]) == other@[k],
            decreases n - i,
        {
            let m = self.data[i].len();
            if m != other.data[i].len() {
                proof {
                    assert(self@[i as int].len() != other@[i as int].len());
                }
                return false;
            }
            let mut j: usize = 0;
            while j < m
                invariant
                    0 <= j <= m,
                    0 <= i < n,
                    n == self.data@.len() == other.data@.len(),
                    m == self.data@[i as int]@.len() == other.data@[i as int]@.len(),
                    forall|l: int|
                        0 <= l < j ==> self.data@[i as int]@[l] == other.data@[i as int]@[l],
                decreases m - j,
            {
                if self.data[i][j] != other.data[i][j] {
                    proof {
                        assert(self@[i as int][j as int] != other@[i as int][j as int]);
                    }
                    return false;
                }
                j = j + 1;
            }
            proof {
                assert(self@[i as int] =~= other@[i as int]);
            }
            i = i + 1;
        }
        proof {
            assert(self@ =~= other@);
        }
        true
    }
}

impl<const R: usize, const C: usize> vstd::std_specs::cmp::PartialEqSpecImpl for Mat<R, C> {
    open spec fn obeys_eq_spec() -> bool {
        true
    }

    open spec fn eq_spec(&self, other: &Self) -> bool {
        self@ == other@
    }
}

/// The square two-by-two matrix the link generator pairs with a
/// two-field vector type.
pub type Mat2 = Mat<2, 2>;

/// The square three-by-three matrix the link generator pairs with a
/// three-field vector type.
pub type Mat3 = Mat<3, 3>;

/// The square four-by-four matrix the link generator pairs with a
/// four-field vector type.
pub type Mat4 = Mat<4, 4>;

/// The comma-separated decimal renderings of one row's cells.
pub open spec fn spec_cells(row: Seq<i64>) -> Seq<char>
    decreases row.len(),
{
    if row.len() == 0 {
        Seq::empty()
    } else if row.len() == 1 {
        crate::vector::spec_dec_i64(row[0])
    } else {
        spec_cells(row.drop_last()) + ", "@ + crate::vector::spec_dec_i64(row.last())
    }
}

/// One row's debug text: the cells between brackets, closed by a line
/// break.
pub open spec fn spec_row_text(row: Seq<i64>) -> Seq<char> {
    "["@ + spec_cells(row) + "]\n"@
}

/// The rows' debug texts, one after another.
pub open spec fn spec_rows_text(m: Seq<Seq<i64>>) -> Seq<char>
    decreases m.len(),
{
    if m.len() == 0 {
        Seq::empty()
    } else {
        spec_rows_text(m.drop_last()) + spec_row_text(m.last())
    }
}

/// The whole debug text: a shape header, then one line per row.
pub open spec fn spec_mat_debug(m: Seq<Seq<i64>>, rows: int, cols: int) -> Seq<char> {
    "Matrix "@ + crate::vector::spec_dec_nat(rows as nat) + "x"@ + crate::vector::spec_dec_nat(
        cols as nat,
    ) + ":\n"@ + spec_rows_text(m)
}

/// One row's debug text.
fn row_string(row: &Vec<i64>) -> (r: String)
    ensures
        r@ == spec_row_text(row@),
{
    let mut s = String::from_str("[");
    let n = row.len();
    let mut j: usize = 0;
    proof {
        assert(spec_cells(row@.take(0)) =~= Seq::<char>::empty());
        assert(s@ =~= "["@ + spec_cells(row@.take(0)));
    }
    while j < n
        invariant
            0 <= j <= n,
            n == row@.len(),
            s@ == "["@ + spec_cells(row@.take(j as int)),
        decreases n - j,
    {
        if j > 0 {
            s.append(", ");
        }
        crate::vector::push_dec_i64(&mut s, row[j]);
        proof {
            assert(row@.take(j + 1).drop_last() =~= row@.take(j as int));
            assert(row@.take(j + 1).last() == row@[j as int]);
            if j == 0 {
                assert(spec_cells(row@.take(1)) == crate::vector::spec_dec_i64(row@[0]));
                assert(s@ =~= "["@ + spec_cells(row@.take(1)));
            } else {
                assert(spec_cells(row@.take(j + 1)) == spec_cells(row@.take(j as int)) + ", "@
                    + crate::vector::spec_dec_i64(row@[j as int]));
                assert(s@ =~= "["@ + spec_cells(row@.take(j + 1)));
            }
        }
        j = j + 1;
    }
    proof {
        assert(row@.take(n as int) =~= row@);
    }
    s.concat("]\n")
}

impl<const R: usize, const C: usize> Mat<R, C> {
    /// The debug rendering: the shape, then each row's cells in order,
    /// comma-separated and bracketed, one row per line.
    pub fn to_debug_string(&self) -> (r: String)
        requires
            self.wf(),
        ensures
            r@ == spec_mat_debug(self@, R as int, C as int),
    {
        let mut s = String::from_str("Matrix ");
        crate::vector::push_dec_u64(&mut s, R as u64);
        s.append("x");
        crate::vector::push_dec_u64(&mut s, C as u64);
        s.append(":\n");
        let ghost header = "Matrix "@ + crate::vector::spec_dec_nat(R as nat) + "x"@
            + crate::vector::spec_dec_nat(C as nat) + ":\n"@;
        proof {
            assert(spec_rows_text(self@.take(0)) =~= Seq::<char>::empty());
            assert(s@ =~= header + spec_rows_text(self@.take(0)));
        }
        let mut i: usize = 0;
        while i < R
            invariant
                0 <= i <= R,
                self.wf(),
                s@ == header + spec_rows_text(self@.take(i as int)),
            decreases R - i,
        {
            let line = row_string(&self.data[i]);
            s.append(line.as_str());
            proof {
                assert(self@[i as int] == self.data@[i as int]@);
                assert(self@.take(i + 1).drop_last() =~= self@.take(i as int));
                assert(self@.take(i + 1).last() == self@[i as int]);
                assert(s@ =~= header + spec_rows_text(self@.take(i + 1)));
            }
            i = i + 1;
        }
        proof {
            assert(self@.take(R as int) =~= self@);
        }
        s
    }
}

} // verus!
