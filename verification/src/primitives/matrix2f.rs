//! Two-by-two matrices.

use vstd::prelude::*;
use crate::primitives::float::Float;

verus! {

/// A 2×2 grid of numbers, stored row by row.
///
/// `==` is identity of every entry's bit pattern.  Equality within a
/// tolerance subtracts numbers and is the caller's to compute.
#[derive(Clone, Copy, Debug)]
pub struct Matrix2f {
    pub inner: [Float; 4],
}

impl Matrix2f {
    /// The entry in row `row` and column `col`.
    pub open spec fn at(self, row: int, col: int) -> Float {
        self.inner@[row * 2 + col]
    }

    /// The matrix whose entry at `(row, col)` is `f(row, col)`.
    pub open spec fn from_fn(f: spec_fn(int, int) -> Float) -> Matrix2f {
        Matrix2f { inner: [f(0, 0), f(0, 1), f(1, 0), f(1, 1)] }
    }

    /// The matrix of zeros.
    pub open spec fn zeros() -> Matrix2f {
        Matrix2f::from_fn(|row: int, col: int| Float::spec_zero())
    }

    /// The identity matrix: ones on the diagonal, zeros elsewhere.
    pub open spec fn spec_identity() -> Matrix2f {
        Matrix2f::from_fn(
            |row: int, col: int|
                if row == col {
                    Float::spec_one()
                } else {
                    Float::spec_zero()
                },
        )
    }

    /// The matrix mirrored at its diagonal.
    pub open spec fn transposed(self) -> Matrix2f {
        Matrix2f::from_fn(|row: int, col: int| self.at(col, row))
    }

    /// The matrix with one entry replaced.
    pub open spec fn with(self, row: int, col: int, value: Float) -> Matrix2f {
        Matrix2f::from_fn(
            |r: int, c: int|
                if r == row && c == col {
                    value
                } else {
                    self.at(r, c)
                },
        )
    }

    /// Every entry of `from_fn(f)` is what `f` gives for its place.
    pub proof fn lemma_from_fn(f: spec_fn(int, int) -> Float)
        ensures
            forall|row: int, col: int|
                0 <= row < 2 && 0 <= col < 2 ==> #[trigger] Matrix2f::from_fn(f).at(row, col) == f(
                    row,
                    col,
                ),
    {
        let m = Matrix2f::from_fn(f);
        assert(m.inner@[0] == f(0, 0));
        assert(m.inner@[1] == f(0, 1));
        assert(m.inner@[2] == f(1, 0));
        assert(m.inner@[3] == f(1, 1));
    }

    /// Two matrices with the same entries are the same matrix.
    pub proof fn lemma_ext_equal(a: Matrix2f, b: Matrix2f)
        requires
            forall|row: int, col: int|
                0 <= row < 2 && 0 <= col < 2 ==> #[trigger] a.at(row, col) == b.at(row, col),
        ensures
            a == b,
    {
        assert forall|k: int| 0 <= k < 4 implies a.inner@[k] == b.inner@[k] by {
            assert(a.at(k / 2, k % 2) == b.at(k / 2, k % 2));
        }
        assert(a.inner =~= b.inner);
    }

    /// The matrix of zeros.
    pub fn new() -> (m: Matrix2f)
        ensures
            m == Matrix2f::zeros(),
    {
        let m = Matrix2f { inner: [Float::zero();4] };
        proof {
            Matrix2f::lemma_from_fn(|row: int, col: int| Float::spec_zero());
            Matrix2f::lemma_ext_equal(m, Matrix2f::zeros());
        }
        m
    }

    /// The identity matrix.  It is its own transpose.
    pub fn identity() -> (m: Matrix2f)
        ensures
            m == Matrix2f::spec_identity(),
            m.transposed() == m,
    {
        proof {
            Matrix2f::lemma_transpose_identity();
        }
        let o = Float::one();
        let z = Float::zero();
        let m = Matrix2f { inner: [o, z, z, o] };
        proof {
            assert(m.inner =~= Matrix2f::spec_identity().inner);
        }
        m
    }

    /// The entry in row `row` and column `col`.
    pub fn get(&self, row: usize, col: usize) -> (value: Float)
        requires
            row < 2,
            col < 2,
        ensures
            value == self.at(row as int, col as int),
    {
        self.inner[row * 2 + col]
    }

    /// Replaces the entry in row `row` and column `col`.
    pub fn set(&mut self, row: usize, col: usize, value: Float)
        requires
            row < 2,
            col < 2,
        ensures
            *final(self) == old(self).with(row as int, col as int, value),
            final(self).inner@ == old(self).inner@.update(row * 2 + col, value),
            final(self).at(row as int, col as int) == value,
            forall|r: int, c: int|
                0 <= r < 2 && 0 <= c < 2 && !(r == row && c == col) ==> #[trigger] final(self).at(
                    r,
                    c,
                ) == old(self).at(r, c),
    {
        let ghost before = *self;
        self.inner[row * 2 + col] = value;
        proof {
            Matrix2f::lemma_from_fn(
                |r: int, c: int|
                    if r == row && c == col {
                        value
                    } else {
                        before.at(r, c)
                    },
            );
            Matrix2f::lemma_ext_equal(*self, before.with(row as int, col as int, value));
        }
    }

    /// The matrix with the rows of `layout`.
    pub fn new_from(layout: [[Float; 2]; 2]) -> (m: Matrix2f)
        ensures
            m == Matrix2f::from_fn(|row: int, col: int| layout@[row]@[col]),
    {
        let mut m = Matrix2f::new();
        let mut i: usize = 0;
        while i < 2
            invariant
                i <= 2,
                forall|r: int, c: int|
                    0 <= r < i && 0 <= c < 2 ==> #[trigger] m.at(r, c) == layout@[r]@[c],
            decreases 2 - i,
        {
            let mut j: usize = 0;
            while j < 2
                invariant
                    i < 2,
                    j <= 2,
                    forall|r: int, c: int|
                        0 <= r < i && 0 <= c < 2 ==> #[trigger] m.at(r, c) == layout@[r]@[c],
                    forall|c: int| 0 <= c < j ==> #[trigger] m.at(i as int, c) == layout@[i as int]@[c],
                decreases 2 - j,
            {
                m.set(i, j, layout[i][j]);
                j += 1;
            }
            i += 1;
        }
        proof {
            Matrix2f::lemma_from_fn(|row: int, col: int| layout@[row]@[col]);
            Matrix2f::lemma_ext_equal(m, Matrix2f::from_fn(|row: int, col: int| layout@[row]@[col]));
        }
        m
    }

    /// The matrix mirrored at its diagonal.  Mirroring the result gives the
    /// matrix back.
    pub fn transpose(&self) -> (m: Matrix2f)
        ensures
            m == self.transposed(),
            m.transposed() == *self,
    {
        let mut m = Matrix2f::new();
        let mut i: usize = 0;
        while i < 2
            invariant
                i <= 2,
                forall|r: int, c: int|
                    0 <= r < i && 0 <= c < 2 ==> #[trigger] m.at(c, r) == self.at(r, c),
            decreases 2 - i,
        {
            let mut j: usize = 0;
            while j < 2
                invariant
                    i < 2,
                    j <= 2,
                    forall|r: int, c: int|
                        0 <= r < i && 0 <= c < 2 ==> #[trigger] m.at(c, r) == self.at(r, c),
                    forall|c: int| 0 <= c < j ==> #[trigger] m.at(c, i as int) == self.at(i as int, c),
                decreases 2 - j,
            {
                m.set(j, i, self.get(i, j));
                j += 1;
            }
            i += 1;
        }
        proof {
            Matrix2f::lemma_from_fn(|row: int, col: int| self.at(col, row));
            Matrix2f::lemma_ext_equal(m, self.transposed());
            Matrix2f::lemma_transpose_involution(*self);
        }
        m
    }

    /// Transposing twice gives the matrix back.
    pub proof fn lemma_transpose_involution(m: Matrix2f)
        ensures
            m.transposed().transposed() == m,
    {
        let t = m.transposed();
        Matrix2f::lemma_from_fn(|row: int, col: int| m.at(col, row));
        Matrix2f::lemma_from_fn(|row: int, col: int| t.at(col, row));
        Matrix2f::lemma_ext_equal(t.transposed(), m);
    }

    /// The identity matrix is its own transpose.
    pub proof fn lemma_transpose_identity()
        ensures
            Matrix2f::spec_identity().transposed() == Matrix2f::spec_identity(),
    {
        let id = Matrix2f::spec_identity();
        assert(id.transposed().inner =~= id.inner);
    }
}

impl core::ops::Index<(usize, usize)> for Matrix2f {
    type Output = Float;

    /// The entry in row `indexes.0` and column `indexes.1`.
    fn index(&self, indexes: (usize, usize)) -> (value: &Float)
        ensures
            *value == self.at(indexes.0 as int, indexes.1 as int),
    {
        &self.inner[indexes.0 * 2 + indexes.1]
    }
}

impl vstd::std_specs::core::IndexSpecImpl<(usize, usize)> for Matrix2f {
    open spec fn index_req(&self, indexes: &(usize, usize)) -> bool {
        indexes.0 < 2 && indexes.1 < 2
    }
}

impl core::ops::IndexMut<(usize, usize)> for Matrix2f {
    /// The entry in row `indexes.0` and column `indexes.1`, to be replaced.
    fn index_mut(&mut self, indexes: (usize, usize)) -> (value: &mut Float)
        requires
            indexes.0 < 2 && indexes.1 < 2,
        ensures
            *value == old(self).at(indexes.0 as int, indexes.1 as int),
            final(self).inner@ == old(self).inner@.update(indexes.0 * 2 + indexes.1, *final(value)),
    {
        &mut self.inner[indexes.0 * 2 + indexes.1]
    }
}

impl PartialEq for Matrix2f {
    /// Identity of all four bit patterns.
    fn eq(&self, other: &Matrix2f) -> (r: bool) {
        let mut k: usize = 0;
        while k < 4
            invariant
                k <= 4,
                forall|n: int| 0 <= n < k ==> self.inner@[n] == other.inner@[n],
            decreases 4 - k,
        {
            if self.inner[k] != other.inner[k] {
                return false;
            }
            k += 1;
        }
        proof {
            assert(self.inner =~= other.inner);
        }
        true
    }
}

impl vstd::std_specs::cmp::PartialEqSpecImpl for Matrix2f {
    open spec fn obeys_eq_spec() -> bool {
        true
    }

    open spec fn eq_spec(&self, other: &Matrix2f) -> bool {
        *self == *other
    }
}

} // verus!
