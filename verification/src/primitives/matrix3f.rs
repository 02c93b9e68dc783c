//! Three-by-three matrices.

use vstd::prelude::*;
use crate::primitives::float::Float;
use crate::primitives::matrix2f::Matrix2f;

verus! {

/// A 3×3 grid of numbers, stored row by row.
///
/// `==` is identity of every entry's bit pattern.  Equality within a
/// tolerance subtracts numbers and is the caller's to compute.
#[derive(Clone, Copy, Debug)]
pub struct Matrix3f {
    pub inner: [Float; 9],
}

impl Matrix3f {
    /// The entry in row `row` and column `col`.
    pub open spec fn at(self, row: int, col: int) -> Float {
        self.inner@[row * 3 + col]
    }

    /// The matrix whose entry at `(row, col)` is `f(row, col)`.
    pub open spec fn from_fn(f: spec_fn(int, int) -> Float) -> Matrix3f {
        Matrix3f {
            inner: [
                f(0, 0), f(0, 1), f(0, 2),
                f(1, 0), f(1, 1), f(1, 2),
                f(2, 0), f(2, 1), f(2, 2),
            ],
        }
    }

    /// The matrix of zeros.
    pub open spec fn zeros() -> Matrix3f {
        Matrix3f::from_fn(|row: int, col: int| Float::spec_zero())
    }

    /// The identity matrix: ones on the diagonal, zeros elsewhere.
    pub open spec fn spec_identity() -> Matrix3f {
        Matrix3f::from_fn(
            |row: int, col: int|
                if row == col {
                    Float::spec_one()
                } else {
                    Float::spec_zero()
                },
        )
    }

    /// The matrix mirrored at its diagonal.
    pub open spec fn transposed(self) -> Matrix3f {
        Matrix3f::from_fn(|row: int, col: int| self.at(col, row))
    }

    /// The matrix with one entry replaced.
    pub open spec fn with(self, row: int, col: int, value: Float) -> Matrix3f {
        Matrix3f::from_fn(
            |r: int, c: int|
                if r == row && c == col {
                    value
                } else {
                    self.at(r, c)
                },
        )
    }

    /// Every entry of `from_fn(f)` is what `f` gives for its place.
    pub proof fn lemma_from_fn(f: spec_fn(int, int) -> Float)
        ensures
            forall|row: int, col: int|
                0 <= row < 3 && 0 <= col < 3 ==> #[trigger] Matrix3f::from_fn(f).at(row, col) == f(
                    row,
                    col,
                ),
    {
        let m = Matrix3f::from_fn(f);
        assert(m.inner@[0] == f(0, 0));
        assert(m.inner@[1] == f(0, 1));
        assert(m.inner@[2] == f(0, 2));
        assert(m.inner@[3] == f(1, 0));
        assert(m.inner@[4] == f(1, 1));
        assert(m.inner@[5] == f(1, 2));
        assert(m.inner@[6] == f(2, 0));
        assert(m.inner@[7] == f(2, 1));
        assert(m.inner@[8] == f(2, 2));
    }

    /// Two matrices with the same entries are the same matrix.
    pub proof fn lemma_ext_equal(a: Matrix3f, b: Matrix3f)
        requires
            forall|row: int, col: int|
                0 <= row < 3 && 0 <= col < 3 ==> #[trigger] a.at(row, col) == b.at(row, col),
        ensures
            a == b,
    {
        assert forall|k: int| 0 <= k < 9 implies a.inner@[k] == b.inner@[k] by {
            assert(a.at(k / 3, k % 3) == b.at(k / 3, k % 3));
        }
        assert(a.inner =~= b.inner);
    }

    /// The matrix of zeros.
    pub fn new() -> (m: Matrix3f)
        ensures
            m == Matrix3f::zeros(),
    {
        let m = Matrix3f { inner: [Float::zero();9] };
        proof {
            Matrix3f::lemma_from_fn(|row: int, col: int| Float::spec_zero());
            Matrix3f::lemma_ext_equal(m, Matrix3f::zeros());
        }
        m
    }

    /// The identity matrix.  It is its own transpose.
    pub fn identity() -> (m: Matrix3f)
        ensures
            m == Matrix3f::spec_identity(),
            m.transposed() == m,
    {
        proof {
            Matrix3f::lemma_transpose_identity();
        }
        let o = Float::one();
        let z = Float::zero();
        let m = Matrix3f { inner: [o, z, z, z, o, z, z, z, o] };
        proof {
            assert(m.inner =~= Matrix3f::spec_identity().inner);
        }
        m
    }

    /// The entry in row `row` and column `col`.
    pub fn get(&self, row: usize, col: usize) -> (value: Float)
        requires
            row < 3,
            col < 3,
        ensures
            value == self.at(row as int, col as int),
    {
        self.inner[row * 3 + col]
    }

    /// Replaces the entry in row `row` and column `col`.
    pub fn set(&mut self, row: usize, col: usize, value: Float)
        requires
            row < 3,
            col < 3,
        ensures
            *final(self) == old(self).with(row as int, col as int, value),
            final(self).inner@ == old(self).inner@.update(row * 3 + col, value),
            final(self).at(row as int, col as int) == value,
            forall|r: int, c: int|
                0 <= r < 3 && 0 <= c < 3 && !(r == row && c == col) ==> #[trigger] final(self).at(
                    r,
                    c,
                ) == old(self).at(r, c),
    {
        let ghost before = *self;
        self.inner[row * 3 + col] = value;
        proof {
            Matrix3f::lemma_from_fn(
                |r: int, c: int|
                    if r == row && c == col {
                        value
                    } else {
                        before.at(r, c)
                    },
            );
            Matrix3f::lemma_ext_equal(*self, before.with(row as int, col as int, value));
        }
    }

    /// The matrix with the rows of `layout`.
    pub fn new_from(layout: [[Float; 3]; 3]) -> (m: Matrix3f)
        ensures
            m == Matrix3f::from_fn(|row: int, col: int| layout@[row]@[col]),
    {
        let mut m = Matrix3f::new();
        let mut i: usize = 0;
        while i < 3
            invariant
                i <= 3,
                forall|r: int, c: int|
                    0 <= r < i && 0 <= c < 3 ==> #[trigger] m.at(r, c) == layout@[r]@[c],
            decreases 3 - i,
        {
            let mut j: usize = 0;
            while j < 3
                invariant
                    i < 3,
                    j <= 3,
                    forall|r: int, c: int|
                        0 <= r < i && 0 <= c < 3 ==> #[trigger] m.at(r, c) == layout@[r]@[c],
                    forall|c: int| 0 <= c < j ==> #[trigger] m.at(i as int, c) == layout@[i as int]@[c],
                decreases 3 - j,
            {
                m.set(i, j, layout[i][j]);
                j += 1;
            }
            i += 1;
        }
        proof {
            Matrix3f::lemma_from_fn(|row: int, col: int| layout@[row]@[col]);
            Matrix3f::lemma_ext_equal(m, Matrix3f::from_fn(|row: int, col: int| layout@[row]@[col]));
        }
        m
    }

    /// The matrix mirrored at its diagonal.  Mirroring the result gives the
    /// matrix back.
    pub fn transpose(&self) -> (m: Matrix3f)
        ensures
            m == self.transposed(),
            m.transposed() == *self,
    {
        let mut m = Matrix3f::new();
        let mut i: usize = 0;
        while i < 3
            invariant
                i <= 3,
                forall|r: int, c: int|
                    0 <= r < i && 0 <= c < 3 ==> #[trigger] m.at(c, r) == self.at(r, c),
            decreases 3 - i,
        {
            let mut j: usize = 0;
            while j < 3
                invariant
                    i < 3,
                    j <= 3,
                    forall|r: int, c: int|
                        0 <= r < i && 0 <= c < 3 ==> #[trigger] m.at(c, r) == self.at(r, c),
                    forall|c: int| 0 <= c < j ==> #[trigger] m.at(c, i as int) == self.at(i as int, c),
                decreases 3 - j,
            {
                m.set(j, i, self.get(i, j));
                j += 1;
            }
            i += 1;
        }
        proof {
            Matrix3f::lemma_from_fn(|row: int, col: int| self.at(col, row));
            Matrix3f::lemma_ext_equal(m, self.transposed());
            Matrix3f::lemma_transpose_involution(*self);
        }
        m
    }

    /// The matrix without row `row` and column `col`: the rows and columns
    /// after the deleted ones move up by one.
    pub open spec fn without(self, row: int, col: int) -> Matrix2f {
        Matrix2f::from_fn(
            |r: int, c: int|
                self.at(
                    if r < row {
                        r
                    } else {
                        r + 1
                    },
                    if c < col {
                        c
                    } else {
                        c + 1
                    },
                ),
        )
    }

    /// The sign that the cofactor at `(row, col)` gives its minor: kept where
    /// `row + col` is even, flipped where it is odd.
    pub open spec fn signed_minor(minor: Float, row: int, col: int) -> Float {
        if (row + col) % 2 == 0 {
            minor
        } else {
            minor.negated()
        }
    }

    /// The matrix without row `row` and column `col`.
    pub fn submatrix(&self, row: usize, col: usize) -> (m: Matrix2f)
        requires
            row < 3,
            col < 3,
        ensures
            m == self.without(row as int, col as int),
    {
        let mut m = Matrix2f::new();
        let mut u: usize = 0;
        let mut i: usize = 0;
        while i < 3
            invariant
                i <= 3,
                row < 3,
                col < 3,
                u == if i <= row {
                    i as int
                } else {
                    i - 1
                },
                forall|r: int, c: int|
                    0 <= r < u && 0 <= c < 2 ==> #[trigger] m.at(r, c) == self.without(
                        row as int,
                        col as int,
                    ).at(r, c),
            decreases 3 - i,
        {
            proof {
                Matrix2f::lemma_from_fn(
                    |r: int, c: int|
                        self.at(
                            if r < row {
                                r
                            } else {
                                r + 1
                            },
                            if c < col {
                                c
                            } else {
                                c + 1
                            },
                        ),
                );
            }
            if i != row {
                let mut v: usize = 0;
                let mut j: usize = 0;
                while j < 3
                    invariant
                        i < 3,
                        i != row,
                        j <= 3,
                        row < 3,
                        col < 3,
                        u < 2,
                        u == if i < row {
                            i as int
                        } else {
                            i - 1
                        },
                        v == if j <= col {
                            j as int
                        } else {
                            j - 1
                        },
                        forall|r: int, c: int|
                            0 <= r < 2 && 0 <= c < 2 ==> #[trigger] self.without(
                                row as int,
                                col as int,
                            ).at(r, c) == self.at(
                                if r < row {
                                    r
                                } else {
                                    r + 1
                                },
                                if c < col {
                                    c
                                } else {
                                    c + 1
                                },
                            ),
                        forall|r: int, c: int|
                            0 <= r < u && 0 <= c < 2 ==> #[trigger] m.at(r, c) == self.without(
                                row as int,
                                col as int,
                            ).at(r, c),
                        forall|c: int|
                            0 <= c < v ==> #[trigger] m.at(u as int, c) == self.without(
                                row as int,
                                col as int,
                            ).at(u as int, c),
                    decreases 3 - j,
                {
                    if j != col {
                        m.set(u, v, self.get(i, j));
                        v += 1;
                    }
                    j += 1;
                }
                u += 1;
            }
            i += 1;
        }
        proof {
            Matrix2f::lemma_ext_equal(m, self.without(row as int, col as int));
        }
        m
    }

    /// The cofactor at `(row, col)`, given the minor there: the minor with the
    /// sign of the place.
    pub fn cofactor(minor: Float, row: usize, col: usize) -> (c: Float)
        requires
            row < 3,
            col < 3,
        ensures
            c == Matrix3f::signed_minor(minor, row as int, col as int),
            c.value() == if (row + col) % 2 == 0 {
                minor.value()
            } else {
                -minor.value()
            },
    {
        if (row + col) % 2 == 0 {
            minor
        } else {
            minor.neg()
        }
    }

    /// Transposing twice gives the matrix back.
    pub proof fn lemma_transpose_involution(m: Matrix3f)
        ensures
            m.transposed().transposed() == m,
    {
        let t = m.transposed();
        Matrix3f::lemma_from_fn(|row: int, col: int| m.at(col, row));
        Matrix3f::lemma_from_fn(|row: int, col: int| t.at(col, row));
        Matrix3f::lemma_ext_equal(t.transposed(), m);
    }

    /// The identity matrix is its own transpose.
    pub proof fn lemma_transpose_identity()
        ensures
            Matrix3f::spec_identity().transposed() == Matrix3f::spec_identity(),
    {
        let id = Matrix3f::spec_identity();
        assert(id.transposed().inner =~= id.inner);
    }
}

impl core::ops::Index<(usize, usize)> for Matrix3f {
    type Output = Float;

    /// The entry in row `indexes.0` and column `indexes.1`.
    fn index(&self, indexes: (usize, usize)) -> (value: &Float)
        ensures
            *value == self.at(indexes.0 as int, indexes.1 as int),
    {
        &self.inner[indexes.0 * 3 + indexes.1]
    }
}

impl vstd::std_specs::core::IndexSpecImpl<(usize, usize)> for Matrix3f {
    open spec fn index_req(&self, indexes: &(usize, usize)) -> bool {
        indexes.0 < 3 && indexes.1 < 3
    }
}

impl core::ops::IndexMut<(usize, usize)> for Matrix3f {
    /// The entry in row `indexes.0` and column `indexes.1`, to be replaced.
    fn index_mut(&mut self, indexes: (usize, usize)) -> (value: &mut Float)
        requires
            indexes.0 < 3 && indexes.1 < 3,
        ensures
            *value == old(self).at(indexes.0 as int, indexes.1 as int),
            final(self).inner@ == old(self).inner@.update(indexes.0 * 3 + indexes.1, *final(value)),
    {
        &mut self.inner[indexes.0 * 3 + indexes.1]
    }
}

impl PartialEq for Matrix3f {
    /// Identity of all nine bit patterns.
    fn eq(&self, other: &Matrix3f) -> (r: bool) {
        let mut k: usize = 0;
        while k < 9
            invariant
                k <= 9,
                forall|n: int| 0 <= n < k ==> self.inner@[n] == other.inner@[n],
            decreases 9 - k,
        {
            if self.inner[k] != other.inner[k] {
                return false;
            }
            k += 1;
        }
        proof {
            assert(self.inner =~= other.inner);
        }
        true
    }
}

impl vstd::std_specs::cmp::PartialEqSpecImpl for Matrix3f {
    open spec fn obeys_eq_spec() -> bool {
        true
    }

    open spec fn eq_spec(&self, other: &Matrix3f) -> bool {
        *self == *other
    }
}

} // verus!
