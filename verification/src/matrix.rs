//! Square matrices of two, three and four rows: how their entries are laid
//! out, read, replaced and rearranged. The entries are of any type that can
//! be copied; nothing here computes with them.

use vstd::prelude::*;

verus! {

/// Where entry `i` of a matrix comes from, in the matrix that it was made of
/// by taking out row or column `removed`: from the same place if that is
/// before `removed`, else from the next one.
pub open spec fn kept_index(i: int, removed: int) -> int {
    if i < removed {
        i
    } else {
        i + 1
    }
}

fn kept(i: usize, removed: usize) -> (from: usize)
    requires
        i < 3,
    ensures
        from == kept_index(i as int, removed as int),
        from <= i + 1,
{
    if i < removed {
        i
    } else {
        i + 1
    }
}

/// Whether the minor of row `row` and column `column` changes its sign to
/// become the cofactor: it does where `row + column` is odd.
pub open spec fn is_negated(row: int, column: int) -> bool {
    (row + column) % 2 == 1
}

/// Whether the minor of row `row` and column `column` changes its sign to
/// become the cofactor.
pub fn cofactor_is_negated(row: usize, column: usize) -> (negated: bool)
    ensures
        negated == is_negated(row as int, column as int),
{
    (row % 2) != (column % 2)
}

/// A matrix of two rows and two columns. Field `aRC` is the entry in
/// row `R` and column `C`.
#[derive(Debug, Copy, Clone, Default, PartialEq)]
pub struct M2<T> {
    pub a00: T,
    pub a01: T,
    pub a10: T,
    pub a11: T,
}

/// The matrix with the given entries, row by row.
pub fn matrix2<T>(
    a00: T, a01: T,
    a10: T, a11: T,
) -> (m: M2<T>)
    ensures
        m == (M2 {
            a00, a01,
            a10, a11,
        }),
{
    M2 {
        a00, a01,
        a10, a11,
    }
}

impl<T: Copy> M2<T> {
    /// The number of rows, and of columns.
    pub const SIZE: usize = 2;

    /// The entry in row `row` and column `column`.
    pub open spec fn at(self, row: int, column: int) -> T
        recommends
            0 <= row < 2,
            0 <= column < 2,
    {
        if row == 0 {
            if column == 0 {
                self.a00
            } else {
                self.a01
            }
        } else {
            if column == 0 {
                self.a10
            } else {
                self.a11
            }
        }
    }

    /// The matrix with `entry` in row `row` and column `column`, and the
    /// entries of this one everywhere else.
    pub open spec fn with_entry(self, row: int, column: int, entry: T) -> Self
        recommends
            0 <= row < 2,
            0 <= column < 2,
    {
        M2 {
            a00: if row == 0 && column == 0 {
                entry
            } else {
                self.a00
            },
            a01: if row == 0 && column == 1 {
                entry
            } else {
                self.a01
            },
            a10: if row == 1 && column == 0 {
                entry
            } else {
                self.a10
            },
            a11: if row == 1 && column == 1 {
                entry
            } else {
                self.a11
            },
        }
    }

    /// The entry at `idx`, given as row and column.
    pub fn index(&self, idx: (usize, usize)) -> (entry: &T)
        requires
            idx.0 < 2,
            idx.1 < 2,
        ensures
            *entry == self.at(idx.0 as int, idx.1 as int),
    {
        match idx {
            (0, 0) => &self.a00,
            (0, 1) => &self.a01,
            (1, 0) => &self.a10,
            _ => &self.a11,
        }
    }

    /// The entry at `idx`, given as row and column, to be written to. What is
    /// written there is the only change to the matrix.
    pub fn index_mut(&mut self, idx: (usize, usize)) -> (entry: &mut T)
        requires
            idx.0 < 2,
            idx.1 < 2,
        ensures
            *entry == old(self).at(idx.0 as int, idx.1 as int),
            *final(self) == old(self).with_entry(idx.0 as int, idx.1 as int, *final(entry)),
    {
        match idx {
            (0, 0) => &mut self.a00,
            (0, 1) => &mut self.a01,
            (1, 0) => &mut self.a10,
            _ => &mut self.a11,
        }
    }

    /// The matrix mirrored at its diagonal: rows become columns.
    pub open spec fn transposed(self) -> Self {
        M2 {
            a00: self.a00,
            a01: self.a10,
            a10: self.a01,
            a11: self.a11,
        }
    }

    /// The matrix mirrored at its diagonal: rows become columns.
    pub fn transpose(self) -> (t: Self)
        ensures
            t == self.transposed(),
            forall|row: int, column: int|
                0 <= row < 2 && 0 <= column < 2 ==> t.at(row, column) == self.at(column, row),
    {
        matrix2(
            self.a00, self.a10,
            self.a01, self.a11,
        )
    }

    /// Two matrices with the same entries are the same matrix.
    pub proof fn lemma_equal_by_entries(a: Self, b: Self)
        requires
            forall|row: int, column: int|
                0 <= row < 2 && 0 <= column < 2 ==> a.at(row, column) == b.at(row, column),
        ensures
            a == b,
    {
        assert(a.at(0, 0) == b.at(0, 0));
        assert(a.at(0, 1) == b.at(0, 1));
        assert(a.at(1, 0) == b.at(1, 0));
        assert(a.at(1, 1) == b.at(1, 1));
    }

    /// Mirroring a matrix twice gives it back.
    pub proof fn lemma_transposed_twice(m: Self)
        ensures
            m.transposed().transposed() == m,
    {
    }

    /// Row `row`, from left to right.
    pub open spec fn row(self, row: int) -> (T, T)
        recommends
            0 <= row < 2,
    {
        if row == 0 {
            (self.a00, self.a01)
        } else {
            (self.a10, self.a11)
        }
    }

    /// Column `column`, from top to bottom.
    pub open spec fn column(self, column: int) -> (T, T)
        recommends
            0 <= column < 2,
    {
        if column == 0 {
            (self.a00, self.a10)
        } else {
            (self.a01, self.a11)
        }
    }

    /// Whether `close` holds of every entry of this matrix and the entry of
    /// `other` in the same place. The entries are taken row by row, up to the
    /// first pair of which `close` does not hold.
    pub fn eq_by<F: Fn(T, T) -> bool>(&self, other: &Self, close: F) -> (same: bool)
        requires
            forall|row: int, column: int|
                0 <= row < 2 && 0 <= column < 2 ==> close.requires(
                    (#[trigger] self.at(row, column), other.at(row, column)),
                ),
        ensures
            same ==> forall|row: int, column: int|
                0 <= row < 2 && 0 <= column < 2 ==> close.ensures(
                    (#[trigger] self.at(row, column), other.at(row, column)),
                    true,
                ),
            !same ==> exists|row: int, column: int|
                0 <= row < 2 && 0 <= column < 2 && close.ensures(
                    (#[trigger] self.at(row, column), other.at(row, column)),
                    false,
                ),
    {
        proof {
            assert(self.at(0, 0) == self.a00 && other.at(0, 0) == other.a00);
            assert(self.at(0, 1) == self.a01 && other.at(0, 1) == other.a01);
            assert(self.at(1, 0) == self.a10 && other.at(1, 0) == other.a10);
            assert(self.at(1, 1) == self.a11 && other.at(1, 1) == other.a11);
        }
        let same = close(self.a00, other.a00)
            && close(self.a01, other.a01)
            && close(self.a10, other.a10)
            && close(self.a11, other.a11);
        same
    }

    /// The product of this matrix and `n`, where `dot` multiplies a row by a
    /// column: the entry in row `i` and column `j` is what `dot` makes of row
    /// `i` of this matrix and column `j` of `n`.
    pub fn mul_by<F: Fn((T, T), (T, T)) -> T>(self, n: Self, dot: F) -> (product: Self)
        requires
            forall|i: int, j: int|
                0 <= i < 2 && 0 <= j < 2 ==> dot.requires(
                    (#[trigger] self.row(i), #[trigger] n.column(j)),
                ),
        ensures
            forall|i: int, j: int|
                0 <= i < 2 && 0 <= j < 2 ==> dot.ensures(
                    (self.row(i), n.column(j)),
                    #[trigger] product.at(i, j),
                ),
    {
        let r0 = (self.a00, self.a01);
        let r1 = (self.a10, self.a11);
        let c0 = (n.a00, n.a10);
        let c1 = (n.a01, n.a11);
        proof {
            assert(r0 == self.row(0) && c0 == n.column(0));
            assert(r1 == self.row(1) && c1 == n.column(1));
        }
        let e00 = dot(r0, c0);
        let e01 = dot(r0, c1);
        let e10 = dot(r1, c0);
        let e11 = dot(r1, c1);
        matrix2(
            e00, e01,
            e10, e11,
        )
    }

    /// The matrix whose entries are what `op` makes of the entries of this
    /// matrix and of `n` in the same place: with addition for `op`, the sum.
    pub fn zip_by<F: Fn(T, T) -> T>(self, n: Self, op: F) -> (m: Self)
        requires
            forall|row: int, column: int|
                0 <= row < 2 && 0 <= column < 2 ==> op.requires(
                    (#[trigger] self.at(row, column), n.at(row, column)),
                ),
        ensures
            forall|row: int, column: int|
                0 <= row < 2 && 0 <= column < 2 ==> op.ensures(
                    (self.at(row, column), n.at(row, column)),
                    #[trigger] m.at(row, column),
                ),
    {
        proof {
            assert(self.at(0, 0) == self.a00 && n.at(0, 0) == n.a00);
            assert(self.at(0, 1) == self.a01 && n.at(0, 1) == n.a01);
            assert(self.at(1, 0) == self.a10 && n.at(1, 0) == n.a10);
            assert(self.at(1, 1) == self.a11 && n.at(1, 1) == n.a11);
        }
        let e00 = op(self.a00, n.a00);
        let e01 = op(self.a01, n.a01);
        let e10 = op(self.a10, n.a10);
        let e11 = op(self.a11, n.a11);
        matrix2(
            e00, e01,
            e10, e11,
        )
    }

    /// The matrix whose entries are what `op` makes of the entries of this
    /// matrix in the same place: with a multiplication by `k` for `op`, the
    /// matrix scaled by `k`.
    pub fn map_by<F: Fn(T) -> T>(self, op: F) -> (m: Self)
        requires
            forall|row: int, column: int|
                0 <= row < 2 && 0 <= column < 2 ==> op.requires(
                    (#[trigger] self.at(row, column),),
                ),
        ensures
            forall|row: int, column: int|
                0 <= row < 2 && 0 <= column < 2 ==> op.ensures(
                    (self.at(row, column),),
                    #[trigger] m.at(row, column),
                ),
    {
        proof {
            assert(self.at(0, 0) == self.a00);
            assert(self.at(0, 1) == self.a01);
            assert(self.at(1, 0) == self.a10);
            assert(self.at(1, 1) == self.a11);
        }
        let e00 = op(self.a00);
        let e01 = op(self.a01);
        let e10 = op(self.a10);
        let e11 = op(self.a11);
        matrix2(
            e00, e01,
            e10, e11,
        )
    }
}

/// A matrix of three rows and three columns. Field `aRC` is the entry in
/// row `R` and column `C`.
#[derive(Debug, Copy, Clone, Default, PartialEq)]
pub struct M3<T> {
    pub a00: T,
    pub a01: T,
    pub a02: T,
    pub a10: T,
    pub a11: T,
    pub a12: T,
    pub a20: T,
    pub a21: T,
    pub a22: T,
}

/// The matrix with the given entries, row by row.
pub fn matrix3<T>(
    a00: T, a01: T, a02: T,
    a10: T, a11: T, a12: T,
    a20: T, a21: T, a22: T,
) -> (m: M3<T>)
    ensures
        m == (M3 {
            a00, a01, a02,
            a10, a11, a12,
            a20, a21, a22,
        }),
{
    M3 {
        a00, a01, a02,
        a10, a11, a12,
        a20, a21, a22,
    }
}

impl<T: Copy> M3<T> {
    /// The number of rows, and of columns.
    pub const SIZE: usize = 3;

    /// The entry in row `row` and column `column`.
    pub open spec fn at(self, row: int, column: int) -> T
        recommends
            0 <= row < 3,
            0 <= column < 3,
    {
        if row == 0 {
            if column == 0 {
                self.a00
            } else if column == 1 {
                self.a01
            } else {
                self.a02
            }
        } else if row == 1 {
            if column == 0 {
                self.a10
            } else if column == 1 {
                self.a11
            } else {
                self.a12
            }
        } else {
            if column == 0 {
                self.a20
            } else if column == 1 {
                self.a21
            } else {
                self.a22
            }
        }
    }

    /// The matrix with `entry` in row `row` and column `column`, and the
    /// entries of this one everywhere else.
    pub open spec fn with_entry(self, row: int, column: int, entry: T) -> Self
        recommends
            0 <= row < 3,
            0 <= column < 3,
    {
        M3 {
            a00: if row == 0 && column == 0 {
                entry
            } else {
                self.a00
            },
            a01: if row == 0 && column == 1 {
                entry
            } else {
                self.a01
            },
            a02: if row == 0 && column == 2 {
                entry
            } else {
                self.a02
            },
            a10: if row == 1 && column == 0 {
                entry
            } else {
                self.a10
            },
            a11: if row == 1 && column == 1 {
                entry
            } else {
                self.a11
            },
            a12: if row == 1 && column == 2 {
                entry
            } else {
                self.a12
            },
            a20: if row == 2 && column == 0 {
                entry
            } else {
                self.a20
            },
            a21: if row == 2 && column == 1 {
                entry
            } else {
                self.a21
            },
            a22: if row == 2 && column == 2 {
                entry
            } else {
                self.a22
            },
        }
    }

    /// The entry at `idx`, given as row and column.
    pub fn index(&self, idx: (usize, usize)) -> (entry: &T)
        requires
            idx.0 < 3,
            idx.1 < 3,
        ensures
            *entry == self.at(idx.0 as int, idx.1 as int),
    {
        match idx {
            (0, 0) => &self.a00,
            (0, 1) => &self.a01,
            (0, 2) => &self.a02,
            (1, 0) => &self.a10,
            (1, 1) => &self.a11,
            (1, 2) => &self.a12,
            (2, 0) => &self.a20,
            (2, 1) => &self.a21,
            _ => &self.a22,
        }
    }

    /// The entry at `idx`, given as row and column, to be written to. What is
    /// written there is the only change to the matrix.
    pub fn index_mut(&mut self, idx: (usize, usize)) -> (entry: &mut T)
        requires
            idx.0 < 3,
            idx.1 < 3,
        ensures
            *entry == old(self).at(idx.0 as int, idx.1 as int),
            *final(self) == old(self).with_entry(idx.0 as int, idx.1 as int, *final(entry)),
    {
        match idx {
            (0, 0) => &mut self.a00,
            (0, 1) => &mut self.a01,
            (0, 2) => &mut self.a02,
            (1, 0) => &mut self.a10,
            (1, 1) => &mut self.a11,
            (1, 2) => &mut self.a12,
            (2, 0) => &mut self.a20,
            (2, 1) => &mut self.a21,
            _ => &mut self.a22,
        }
    }

    /// The matrix mirrored at its diagonal: rows become columns.
    pub open spec fn transposed(self) -> Self {
        M3 {
            a00: self.a00,
            a01: self.a10,
            a02: self.a20,
            a10: self.a01,
            a11: self.a11,
            a12: self.a21,
            a20: self.a02,
            a21: self.a12,
            a22: self.a22,
        }
    }

    /// The matrix mirrored at its diagonal: rows become columns.
    pub fn transpose(self) -> (t: Self)
        ensures
            t == self.transposed(),
            forall|row: int, column: int|
                0 <= row < 3 && 0 <= column < 3 ==> t.at(row, column) == self.at(column, row),
    {
        matrix3(
            self.a00, self.a10, self.a20,
            self.a01, self.a11, self.a21,
            self.a02, self.a12, self.a22,
        )
    }

    /// Two matrices with the same entries are the same matrix.
    pub proof fn lemma_equal_by_entries(a: Self, b: Self)
        requires
            forall|row: int, column: int|
                0 <= row < 3 && 0 <= column < 3 ==> a.at(row, column) == b.at(row, column),
        ensures
            a == b,
    {
        assert(a.at(0, 0) == b.at(0, 0));
        assert(a.at(0, 1) == b.at(0, 1));
        assert(a.at(0, 2) == b.at(0, 2));
        assert(a.at(1, 0) == b.at(1, 0));
        assert(a.at(1, 1) == b.at(1, 1));
        assert(a.at(1, 2) == b.at(1, 2));
        assert(a.at(2, 0) == b.at(2, 0));
        assert(a.at(2, 1) == b.at(2, 1));
        assert(a.at(2, 2) == b.at(2, 2));
    }

    /// Mirroring a matrix twice gives it back.
    pub proof fn lemma_transposed_twice(m: Self)
        ensures
            m.transposed().transposed() == m,
    {
    }

    /// The matrix that is left when row `row` and column `column` are taken
    /// out. Where `row` or `column` is not one of this matrix, the last one is
    /// taken out in its place.
    pub open spec fn without(self, row: int, column: int) -> M2<T> {
        M2 {
            a00: self.at(kept_index(0, row), kept_index(0, column)),
            a01: self.at(kept_index(0, row), kept_index(1, column)),
            a10: self.at(kept_index(1, row), kept_index(0, column)),
            a11: self.at(kept_index(1, row), kept_index(1, column)),
        }
    }

    /// The matrix that is left when row `row` and column `column` are taken
    /// out. Where `row` or `column` is not one of this matrix, the last one is
    /// taken out in its place.
    pub fn submatrix(self, row: usize, column: usize) -> (sub: M2<T>)
        ensures
            sub == self.without(row as int, column as int),
            forall|i: int, j: int|
                0 <= i < 2 && 0 <= j < 2 ==> sub.at(i, j) == self.at(
                    kept_index(i, row as int),
                    kept_index(j, column as int),
                ),
    {
        matrix2(
            *self.index((kept(0, row), kept(0, column))),
            *self.index((kept(0, row), kept(1, column))),
            *self.index((kept(1, row), kept(0, column))),
            *self.index((kept(1, row), kept(1, column))),
        )
    }

    /// Row `row`, from left to right.
    pub open spec fn row(self, row: int) -> (T, T, T)
        recommends
            0 <= row < 3,
    {
        if row == 0 {
            (self.a00, self.a01, self.a02)
        } else if row == 1 {
            (self.a10, self.a11, self.a12)
        } else {
            (self.a20, self.a21, self.a22)
        }
    }

    /// Column `column`, from top to bottom.
    pub open spec fn column(self, column: int) -> (T, T, T)
        recommends
            0 <= column < 3,
    {
        if column == 0 {
            (self.a00, self.a10, self.a20)
        } else if column == 1 {
            (self.a01, self.a11, self.a21)
        } else {
            (self.a02, self.a12, self.a22)
        }
    }

    /// Whether `close` holds of every entry of this matrix and the entry of
    /// `other` in the same place. The entries are taken row by row, up to the
    /// first pair of which `close` does not hold.
    pub fn eq_by<F: Fn(T, T) -> bool>(&self, other: &Self, close: F) -> (same: bool)
        requires
            forall|row: int, column: int|
                0 <= row < 3 && 0 <= column < 3 ==> close.requires(
                    (#[trigger] self.at(row, column), other.at(row, column)),
                ),
        ensures
            same ==> forall|row: int, column: int|
                0 <= row < 3 && 0 <= column < 3 ==> close.ensures(
                    (#[trigger] self.at(row, column), other.at(row, column)),
                    true,
                ),
            !same ==> exists|row: int, column: int|
                0 <= row < 3 && 0 <= column < 3 && close.ensures(
                    (#[trigger] self.at(row, column), other.at(row, column)),
                    false,
                ),
    {
        proof {
            assert(self.at(0, 0) == self.a00 && other.at(0, 0) == other.a00);
            assert(self.at(0, 1) == self.a01 && other.at(0, 1) == other.a01);
            assert(self.at(0, 2) == self.a02 && other.at(0, 2) == other.a02);
            assert(self.at(1, 0) == self.a10 && other.at(1, 0) == other.a10);
            assert(self.at(1, 1) == self.a11 && other.at(1, 1) == other.a11);
            assert(self.at(1, 2) == self.a12 && other.at(1, 2) == other.a12);
            assert(self.at(2, 0) == self.a20 && other.at(2, 0) == other.a20);
            assert(self.at(2, 1) == self.a21 && other.at(2, 1) == other.a21);
            assert(self.at(2, 2) == self.a22 && other.at(2, 2) == other.a22);
        }
        let same = close(self.a00, other.a00)
            && close(self.a01, other.a01)
            && close(self.a02, other.a02)
            && close(self.a10, other.a10)
            && close(self.a11, other.a11)
            && close(self.a12, other.a12)
            && close(self.a20, other.a20)
            && close(self.a21, other.a21)
            && close(self.a22, other.a22);
        same
    }

    /// The product of this matrix and `n`, where `dot` multiplies a row by a
    /// column: the entry in row `i` and column `j` is what `dot` makes of row
    /// `i` of this matrix and column `j` of `n`.
    pub fn mul_by<F: Fn((T, T, T), (T, T, T)) -> T>(self, n: Self, dot: F) -> (product: Self)
        requires
            forall|i: int, j: int|
                0 <= i < 3 && 0 <= j < 3 ==> dot.requires(
                    (#[trigger] self.row(i), #[trigger] n.column(j)),
                ),
        ensures
            forall|i: int, j: int|
                0 <= i < 3 && 0 <= j < 3 ==> dot.ensures(
                    (self.row(i), n.column(j)),
                    #[trigger] product.at(i, j),
                ),
    {
        let r0 = (self.a00, self.a01, self.a02);
        let r1 = (self.a10, self.a11, self.a12);
        let r2 = (self.a20, self.a21, self.a22);
        let c0 = (n.a00, n.a10, n.a20);
        let c1 = (n.a01, n.a11, n.a21);
        let c2 = (n.a02, n.a12, n.a22);
        proof {
            assert(r0 == self.row(0) && c0 == n.column(0));
            assert(r1 == self.row(1) && c1 == n.column(1));
            assert(r2 == self.row(2) && c2 == n.column(2));
        }
        let e00 = dot(r0, c0);
        let e01 = dot(r0, c1);
        let e02 = dot(r0, c2);
        let e10 = dot(r1, c0);
        let e11 = dot(r1, c1);
        let e12 = dot(r1, c2);
        let e20 = dot(r2, c0);
        let e21 = dot(r2, c1);
        let e22 = dot(r2, c2);
        matrix3(
            e00, e01, e02,
            e10, e11, e12,
            e20, e21, e22,
        )
    }

    /// The matrix whose entries are what `op` makes of the entries of this
    /// matrix and of `n` in the same place: with addition for `op`, the sum.
    pub fn zip_by<F: Fn(T, T) -> T>(self, n: Self, op: F) -> (m: Self)
        requires
            forall|row: int, column: int|
                0 <= row < 3 && 0 <= column < 3 ==> op.requires(
                    (#[trigger] self.at(row, column), n.at(row, column)),
                ),
        ensures
            forall|row: int, column: int|
                0 <= row < 3 && 0 <= column < 3 ==> op.ensures(
                    (self.at(row, column), n.at(row, column)),
                    #[trigger] m.at(row, column),
                ),
    {
        proof {
            assert(self.at(0, 0) == self.a00 && n.at(0, 0) == n.a00);
            assert(self.at(0, 1) == self.a01 && n.at(0, 1) == n.a01);
            assert(self.at(0, 2) == self.a02 && n.at(0, 2) == n.a02);
            assert(self.at(1, 0) == self.a10 && n.at(1, 0) == n.a10);
            assert(self.at(1, 1) == self.a11 && n.at(1, 1) == n.a11);
            assert(self.at(1, 2) == self.a12 && n.at(1, 2) == n.a12);
            assert(self.at(2, 0) == self.a20 && n.at(2, 0) == n.a20);
            assert(self.at(2, 1) == self.a21 && n.at(2, 1) == n.a21);
            assert(self.at(2, 2) == self.a22 && n.at(2, 2) == n.a22);
        }
        let e00 = op(self.a00, n.a00);
        let e01 = op(self.a01, n.a01);
        let e02 = op(self.a02, n.a02);
        let e10 = op(self.a10, n.a10);
        let e11 = op(self.a11, n.a11);
        let e12 = op(self.a12, n.a12);
        let e20 = op(self.a20, n.a20);
        let e21 = op(self.a21, n.a21);
        let e22 = op(self.a22, n.a22);
        matrix3(
            e00, e01, e02,
            e10, e11, e12,
            e20, e21, e22,
        )
    }

    /// The matrix whose entries are what `op` makes of the entries of this
    /// matrix in the same place: with a multiplication by `k` for `op`, the
    /// matrix scaled by `k`.
    pub fn map_by<F: Fn(T) -> T>(self, op: F) -> (m: Self)
        requires
            forall|row: int, column: int|
                0 <= row < 3 && 0 <= column < 3 ==> op.requires(
                    (#[trigger] self.at(row, column),),
                ),
        ensures
            forall|row: int, column: int|
                0 <= row < 3 && 0 <= column < 3 ==> op.ensures(
                    (self.at(row, column),),
                    #[trigger] m.at(row, column),
                ),
    {
        proof {
            assert(self.at(0, 0) == self.a00);
            assert(self.at(0, 1) == self.a01);
            assert(self.at(0, 2) == self.a02);
            assert(self.at(1, 0) == self.a10);
            assert(self.at(1, 1) == self.a11);
            assert(self.at(1, 2) == self.a12);
            assert(self.at(2, 0) == self.a20);
            assert(self.at(2, 1) == self.a21);
            assert(self.at(2, 2) == self.a22);
        }
        let e00 = op(self.a00);
        let e01 = op(self.a01);
        let e02 = op(self.a02);
        let e10 = op(self.a10);
        let e11 = op(self.a11);
        let e12 = op(self.a12);
        let e20 = op(self.a20);
        let e21 = op(self.a21);
        let e22 = op(self.a22);
        matrix3(
            e00, e01, e02,
            e10, e11, e12,
            e20, e21, e22,
        )
    }
}

/// A matrix of four rows and four columns. Field `aRC` is the entry in
/// row `R` and column `C`.
#[derive(Debug, Copy, Clone, Default, PartialEq)]
pub struct M4<T> {
    pub a00: T,
    pub a01: T,
    pub a02: T,
    pub a03: T,
    pub a10: T,
    pub a11: T,
    pub a12: T,
    pub a13: T,
    pub a20: T,
    pub a21: T,
    pub a22: T,
    pub a23: T,
    pub a30: T,
    pub a31: T,
    pub a32: T,
    pub a33: T,
}

/// The matrix with the given entries, row by row.
pub fn matrix4<T>(
    a00: T, a01: T, a02: T, a03: T,
    a10: T, a11: T, a12: T, a13: T,
    a20: T, a21: T, a22: T, a23: T,
    a30: T, a31: T, a32: T, a33: T,
) -> (m: M4<T>)
    ensures
        m == (M4 {
            a00, a01, a02, a03,
            a10, a11, a12, a13,
            a20, a21, a22, a23,
            a30, a31, a32, a33,
        }),
{
    M4 {
        a00, a01, a02, a03,
        a10, a11, a12, a13,
        a20, a21, a22, a23,
        a30, a31, a32, a33,
    }
}

impl<T: Copy> M4<T> {
    /// The number of rows, and of columns.
    pub const SIZE: usize = 4;

    /// The entry in row `row` and column `column`.
    pub open spec fn at(self, row: int, column: int) -> T
        recommends
            0 <= row < 4,
            0 <= column < 4,
    {
        if row == 0 {
            if column == 0 {
                self.a00
            } else if column == 1 {
                self.a01
            } else if column == 2 {
                self.a02
            } else {
                self.a03
            }
        } else if row == 1 {
            if column == 0 {
                self.a10
            } else if column == 1 {
                self.a11
            } else if column == 2 {
                self.a12
            } else {
                self.a13
            }
        } else if row == 2 {
            if column == 0 {
                self.a20
            } else if column == 1 {
                self.a21
            } else if column == 2 {
                self.a22
            } else {
                self.a23
            }
        } else {
            if column == 0 {
                self.a30
            } else if column == 1 {
                self.a31
            } else if column == 2 {
                self.a32
            } else {
                self.a33
            }
        }
    }

    /// The matrix with `entry` in row `row` and column `column`, and the
    /// entries of this one everywhere else.
    pub open spec fn with_entry(self, row: int, column: int, entry: T) -> Self
        recommends
            0 <= row < 4,
            0 <= column < 4,
    {
        M4 {
            a00: if row == 0 && column == 0 {
                entry
            } else {
                self.a00
            },
            a01: if row == 0 && column == 1 {
                entry
            } else {
                self.a01
            },
            a02: if row == 0 && column == 2 {
                entry
            } else {
                self.a02
            },
            a03: if row == 0 && column == 3 {
                entry
            } else {
                self.a03
            },
            a10: if row == 1 && column == 0 {
                entry
            } else {
                self.a10
            },
            a11: if row == 1 && column == 1 {
                entry
            } else {
                self.a11
            },
            a12: if row == 1 && column == 2 {
                entry
            } else {
                self.a12
            },
            a13: if row == 1 && column == 3 {
                entry
            } else {
                self.a13
            },
            a20: if row == 2 && column == 0 {
                entry
            } else {
                self.a20
            },
            a21: if row == 2 && column == 1 {
                entry
            } else {
                self.a21
            },
            a22: if row == 2 && column == 2 {
                entry
            } else {
                self.a22
            },
            a23: if row == 2 && column == 3 {
                entry
            } else {
                self.a23
            },
            a30: if row == 3 && column == 0 {
                entry
            } else {
                self.a30
            },
            a31: if row == 3 && column == 1 {
                entry
            } else {
                self.a31
            },
            a32: if row == 3 && column == 2 {
                entry
            } else {
                self.a32
            },
            a33: if row == 3 && column == 3 {
                entry
            } else {
                self.a33
            },
        }
    }

    /// The entry at `idx`, given as row and column.
    pub fn index(&self, idx: (usize, usize)) -> (entry: &T)
        requires
            idx.0 < 4,
            idx.1 < 4,
        ensures
            *entry == self.at(idx.0 as int, idx.1 as int),
    {
        match idx {
            (0, 0) => &self.a00,
            (0, 1) => &self.a01,
            (0, 2) => &self.a02,
            (0, 3) => &self.a03,
            (1, 0) => &self.a10,
            (1, 1) => &self.a11,
            (1, 2) => &self.a12,
            (1, 3) => &self.a13,
            (2, 0) => &self.a20,
            (2, 1) => &self.a21,
            (2, 2) => &self.a22,
            (2, 3) => &self.a23,
            (3, 0) => &self.a30,
            (3, 1) => &self.a31,
            (3, 2) => &self.a32,
            _ => &self.a33,
        }
    }

    /// The entry at `idx`, given as row and column, to be written to. What is
    /// written there is the only change to the matrix.
    pub fn index_mut(&mut self, idx: (usize, usize)) -> (entry: &mut T)
        requires
            idx.0 < 4,
            idx.1 < 4,
        ensures
            *entry == old(self).at(idx.0 as int, idx.1 as int),
            *final(self) == old(self).with_entry(idx.0 as int, idx.1 as int, *final(entry)),
    {
        match idx {
            (0, 0) => &mut self.a00,
            (0, 1) => &mut self.a01,
            (0, 2) => &mut self.a02,
            (0, 3) => &mut self.a03,
            (1, 0) => &mut self.a10,
            (1, 1) => &mut self.a11,
            (1, 2) => &mut self.a12,
            (1, 3) => &mut self.a13,
            (2, 0) => &mut self.a20,
            (2, 1) => &mut self.a21,
            (2, 2) => &mut self.a22,
            (2, 3) => &mut self.a23,
            (3, 0) => &mut self.a30,
            (3, 1) => &mut self.a31,
            (3, 2) => &mut self.a32,
            _ => &mut self.a33,
        }
    }

    /// The matrix mirrored at its diagonal: rows become columns.
    pub open spec fn transposed(self) -> Self {
        M4 {
            a00: self.a00,
            a01: self.a10,
            a02: self.a20,
            a03: self.a30,
            a10: self.a01,
            a11: self.a11,
            a12: self.a21,
            a13: self.a31,
            a20: self.a02,
            a21: self.a12,
            a22: self.a22,
            a23: self.a32,
            a30: self.a03,
            a31: self.a13,
            a32: self.a23,
            a33: self.a33,
        }
    }

    /// The matrix mirrored at its diagonal: rows become columns.
    pub fn transpose(self) -> (t: Self)
        ensures
            t == self.transposed(),
            forall|row: int, column: int|
                0 <= row < 4 && 0 <= column < 4 ==> t.at(row, column) == self.at(column, row),
    {
        matrix4(
            self.a00, self.a10, self.a20, self.a30,
            self.a01, self.a11, self.a21, self.a31,
            self.a02, self.a12, self.a22, self.a32,
            self.a03, self.a13, self.a23, self.a33,
        )
    }

    /// Two matrices with the same entries are the same matrix.
    pub proof fn lemma_equal_by_entries(a: Self, b: Self)
        requires
            forall|row: int, column: int|
                0 <= row < 4 && 0 <= column < 4 ==> a.at(row, column) == b.at(row, column),
        ensures
            a == b,
    {
        assert(a.at(0, 0) == b.at(0, 0));
        assert(a.at(0, 1) == b.at(0, 1));
        assert(a.at(0, 2) == b.at(0, 2));
        assert(a.at(0, 3) == b.at(0, 3));
        assert(a.at(1, 0) == b.at(1, 0));
        assert(a.at(1, 1) == b.at(1, 1));
        assert(a.at(1, 2) == b.at(1, 2));
        assert(a.at(1, 3) == b.at(1, 3));
        assert(a.at(2, 0) == b.at(2, 0));
        assert(a.at(2, 1) == b.at(2, 1));
        assert(a.at(2, 2) == b.at(2, 2));
        assert(a.at(2, 3) == b.at(2, 3));
        assert(a.at(3, 0) == b.at(3, 0));
        assert(a.at(3, 1) == b.at(3, 1));
        assert(a.at(3, 2) == b.at(3, 2));
        assert(a.at(3, 3) == b.at(3, 3));
    }

    /// Mirroring a matrix twice gives it back.
    pub proof fn lemma_transposed_twice(m: Self)
        ensures
            m.transposed().transposed() == m,
    {
    }

    /// The matrix that is left when row `row` and column `column` are taken
    /// out. Where `row` or `column` is not one of this matrix, the last one is
    /// taken out in its place.
    pub open spec fn without(self, row: int, column: int) -> M3<T> {
        M3 {
            a00: self.at(kept_index(0, row), kept_index(0, column)),
            a01: self.at(kept_index(0, row), kept_index(1, column)),
            a02: self.at(kept_index(0, row), kept_index(2, column)),
            a10: self.at(kept_index(1, row), kept_index(0, column)),
            a11: self.at(kept_index(1, row), kept_index(1, column)),
            a12: self.at(kept_index(1, row), kept_index(2, column)),
            a20: self.at(kept_index(2, row), kept_index(0, column)),
            a21: self.at(kept_index(2, row), kept_index(1, column)),
            a22: self.at(kept_index(2, row), kept_index(2, column)),
        }
    }

    /// The matrix that is left when row `row` and column `column` are taken
    /// out. Where `row` or `column` is not one of this matrix, the last one is
    /// taken out in its place.
    pub fn submatrix(self, row: usize, column: usize) -> (sub: M3<T>)
        ensures
            sub == self.without(row as int, column as int),
            forall|i: int, j: int|
                0 <= i < 3 && 0 <= j < 3 ==> sub.at(i, j) == self.at(
                    kept_index(i, row as int),
                    kept_index(j, column as int),
                ),
    {
        matrix3(
            *self.index((kept(0, row), kept(0, column))),
            *self.index((kept(0, row), kept(1, column))),
            *self.index((kept(0, row), kept(2, column))),
            *self.index((kept(1, row), kept(0, column))),
            *self.index((kept(1, row), kept(1, column))),
            *self.index((kept(1, row), kept(2, column))),
            *self.index((kept(2, row), kept(0, column))),
            *self.index((kept(2, row), kept(1, column))),
            *self.index((kept(2, row), kept(2, column))),
        )
    }

    /// Row `row`, from left to right.
    pub open spec fn row(self, row: int) -> (T, T, T, T)
        recommends
            0 <= row < 4,
    {
        if row == 0 {
            (self.a00, self.a01, self.a02, self.a03)
        } else if row == 1 {
            (self.a10, self.a11, self.a12, self.a13)
        } else if row == 2 {
            (self.a20, self.a21, self.a22, self.a23)
        } else {
            (self.a30, self.a31, self.a32, self.a33)
        }
    }

    /// Column `column`, from top to bottom.
    pub open spec fn column(self, column: int) -> (T, T, T, T)
        recommends
            0 <= column < 4,
    {
        if column == 0 {
            (self.a00, self.a10, self.a20, self.a30)
        } else if column == 1 {
            (self.a01, self.a11, self.a21, self.a31)
        } else if column == 2 {
            (self.a02, self.a12, self.a22, self.a32)
        } else {
            (self.a03, self.a13, self.a23, self.a33)
        }
    }

    /// Whether `close` holds of every entry of this matrix and the entry of
    /// `other` in the same place. The entries are taken row by row, up to the
    /// first pair of which `close` does not hold.
    pub fn eq_by<F: Fn(T, T) -> bool>(&self, other: &Self, close: F) -> (same: bool)
        requires
            forall|row: int, column: int|
                0 <= row < 4 && 0 <= column < 4 ==> close.requires(
                    (#[trigger] self.at(row, column), other.at(row, column)),
                ),
        ensures
            same ==> forall|row: int, column: int|
                0 <= row < 4 && 0 <= column < 4 ==> close.ensures(
                    (#[trigger] self.at(row, column), other.at(row, column)),
                    true,
                ),
            !same ==> exists|row: int, column: int|
                0 <= row < 4 && 0 <= column < 4 && close.ensures(
                    (#[trigger] self.at(row, column), other.at(row, column)),
                    false,
                ),
    {
        proof {
            assert(self.at(0, 0) == self.a00 && other.at(0, 0) == other.a00);
            assert(self.at(0, 1) == self.a01 && other.at(0, 1) == other.a01);
            assert(self.at(0, 2) == self.a02 && other.at(0, 2) == other.a02);
            assert(self.at(0, 3) == self.a03 && other.at(0, 3) == other.a03);
            assert(self.at(1, 0) == self.a10 && other.at(1, 0) == other.a10);
            assert(self.at(1, 1) == self.a11 && other.at(1, 1) == other.a11);
            assert(self.at(1, 2) == self.a12 && other.at(1, 2) == other.a12);
            assert(self.at(1, 3) == self.a13 && other.at(1, 3) == other.a13);
            assert(self.at(2, 0) == self.a20 && other.at(2, 0) == other.a20);
            assert(self.at(2, 1) == self.a21 && other.at(2, 1) == other.a21);
            assert(self.at(2, 2) == self.a22 && other.at(2, 2) == other.a22);
            assert(self.at(2, 3) == self.a23 && other.at(2, 3) == other.a23);
            assert(self.at(3, 0) == self.a30 && other.at(3, 0) == other.a30);
            assert(self.at(3, 1) == self.a31 && other.at(3, 1) == other.a31);
            assert(self.at(3, 2) == self.a32 && other.at(3, 2) == other.a32);
            assert(self.at(3, 3) == self.a33 && other.at(3, 3) == other.a33);
        }
        let same = close(self.a00, other.a00)
            && close(self.a01, other.a01)
            && close(self.a02, other.a02)
            && close(self.a03, other.a03)
            && close(self.a10, other.a10)
            && close(self.a11, other.a11)
            && close(self.a12, other.a12)
            && close(self.a13, other.a13)
            && close(self.a20, other.a20)
            && close(self.a21, other.a21)
            && close(self.a22, other.a22)
            && close(self.a23, other.a23)
            && close(self.a30, other.a30)
            && close(self.a31, other.a31)
            && close(self.a32, other.a32)
            && close(self.a33, other.a33);
        same
    }

    /// The product of this matrix and `n`, where `dot` multiplies a row by a
    /// column: the entry in row `i` and column `j` is what `dot` makes of row
    /// `i` of this matrix and column `j` of `n`.
    pub fn mul_by<F: Fn((T, T, T, T), (T, T, T, T)) -> T>(self, n: Self, dot: F) -> (product: Self)
        requires
            forall|i: int, j: int|
                0 <= i < 4 && 0 <= j < 4 ==> dot.requires(
                    (#[trigger] self.row(i), #[trigger] n.column(j)),
                ),
        ensures
            forall|i: int, j: int|
                0 <= i < 4 && 0 <= j < 4 ==> dot.ensures(
                    (self.row(i), n.column(j)),
                    #[trigger] product.at(i, j),
                ),
    {
        let r0 = (self.a00, self.a01, self.a02, self.a03);
        let r1 = (self.a10, self.a11, self.a12, self.a13);
        let r2 = (self.a20, self.a21, self.a22, self.a23);
        let r3 = (self.a30, self.a31, self.a32, self.a33);
        let c0 = (n.a00, n.a10, n.a20, n.a30);
        let c1 = (n.a01, n.a11, n.a21, n.a31);
        let c2 = (n.a02, n.a12, n.a22, n.a32);
        let c3 = (n.a03, n.a13, n.a23, n.a33);
        proof {
            assert(r0 == self.row(0) && c0 == n.column(0));
            assert(r1 == self.row(1) && c1 == n.column(1));
            assert(r2 == self.row(2) && c2 == n.column(2));
            assert(r3 == self.row(3) && c3 == n.column(3));
        }
        let e00 = dot(r0, c0);
        let e01 = dot(r0, c1);
        let e02 = dot(r0, c2);
        let e03 = dot(r0, c3);
        let e10 = dot(r1, c0);
        let e11 = dot(r1, c1);
        let e12 = dot(r1, c2);
        let e13 = dot(r1, c3);
        let e20 = dot(r2, c0);
        let e21 = dot(r2, c1);
        let e22 = dot(r2, c2);
        let e23 = dot(r2, c3);
        let e30 = dot(r3, c0);
        let e31 = dot(r3, c1);
        let e32 = dot(r3, c2);
        let e33 = dot(r3, c3);
        matrix4(
            e00, e01, e02, e03,
            e10, e11, e12, e13,
            e20, e21, e22, e23,
            e30, e31, e32, e33,
        )
    }

    /// The matrix whose entries are what `op` makes of the entries of this
    /// matrix and of `n` in the same place: with addition for `op`, the sum.
    pub fn zip_by<F: Fn(T, T) -> T>(self, n: Self, op: F) -> (m: Self)
        requires
            forall|row: int, column: int|
                0 <= row < 4 && 0 <= column < 4 ==> op.requires(
                    (#[trigger] self.at(row, column), n.at(row, column)),
                ),
        ensures
            forall|row: int, column: int|
                0 <= row < 4 && 0 <= column < 4 ==> op.ensures(
                    (self.at(row, column), n.at(row, column)),
                    #[trigger] m.at(row, column),
                ),
    {
        proof {
            assert(self.at(0, 0) == self.a00 && n.at(0, 0) == n.a00);
            assert(self.at(0, 1) == self.a01 && n.at(0, 1) == n.a01);
            assert(self.at(0, 2) == self.a02 && n.at(0, 2) == n.a02);
            assert(self.at(0, 3) == self.a03 && n.at(0, 3) == n.a03);
            assert(self.at(1, 0) == self.a10 && n.at(1, 0) == n.a10);
            assert(self.at(1, 1) == self.a11 && n.at(1, 1) == n.a11);
            assert(self.at(1, 2) == self.a12 && n.at(1, 2) == n.a12);
            assert(self.at(1, 3) == self.a13 && n.at(1, 3) == n.a13);
            assert(self.at(2, 0) == self.a20 && n.at(2, 0) == n.a20);
            assert(self.at(2, 1) == self.a21 && n.at(2, 1) == n.a21);
            assert(self.at(2, 2) == self.a22 && n.at(2, 2) == n.a22);
            assert(self.at(2, 3) == self.a23 && n.at(2, 3) == n.a23);
            assert(self.at(3, 0) == self.a30 && n.at(3, 0) == n.a30);
            assert(self.at(3, 1) == self.a31 && n.at(3, 1) == n.a31);
            assert(self.at(3, 2) == self.a32 && n.at(3, 2) == n.a32);
            assert(self.at(3, 3) == self.a33 && n.at(3, 3) == n.a33);
        }
        let e00 = op(self.a00, n.a00);
        let e01 = op(self.a01, n.a01);
        let e02 = op(self.a02, n.a02);
        let e03 = op(self.a03, n.a03);
        let e10 = op(self.a10, n.a10);
        let e11 = op(self.a11, n.a11);
        let e12 = op(self.a12, n.a12);
        let e13 = op(self.a13, n.a13);
        let e20 = op(self.a20, n.a20);
        let e21 = op(self.a21, n.a21);
        let e22 = op(self.a22, n.a22);
        let e23 = op(self.a23, n.a23);
        let e30 = op(self.a30, n.a30);
        let e31 = op(self.a31, n.a31);
        let e32 = op(self.a32, n.a32);
        let e33 = op(self.a33, n.a33);
        matrix4(
            e00, e01, e02, e03,
            e10, e11, e12, e13,
            e20, e21, e22, e23,
            e30, e31, e32, e33,
        )
    }

    /// The matrix whose entries are what `op` makes of the entries of this
    /// matrix in the same place: with a multiplication by `k` for `op`, the
    /// matrix scaled by `k`.
    pub fn map_by<F: Fn(T) -> T>(self, op: F) -> (m: Self)
        requires
            forall|row: int, column: int|
                0 <= row < 4 && 0 <= column < 4 ==> op.requires(
                    (#[trigger] self.at(row, column),),
                ),
        ensures
            forall|row: int, column: int|
                0 <= row < 4 && 0 <= column < 4 ==> op.ensures(
                    (self.at(row, column),),
                    #[trigger] m.at(row, column),
                ),
    {
        proof {
            assert(self.at(0, 0) == self.a00);
            assert(self.at(0, 1) == self.a01);
            assert(self.at(0, 2) == self.a02);
            assert(self.at(0, 3) == self.a03);
            assert(self.at(1, 0) == self.a10);
            assert(self.at(1, 1) == self.a11);
            assert(self.at(1, 2) == self.a12);
            assert(self.at(1, 3) == self.a13);
            assert(self.at(2, 0) == self.a20);
            assert(self.at(2, 1) == self.a21);
            assert(self.at(2, 2) == self.a22);
            assert(self.at(2, 3) == self.a23);
            assert(self.at(3, 0) == self.a30);
            assert(self.at(3, 1) == self.a31);
            assert(self.at(3, 2) == self.a32);
            assert(self.at(3, 3) == self.a33);
        }
        let e00 = op(self.a00);
        let e01 = op(self.a01);
        let e02 = op(self.a02);
        let e03 = op(self.a03);
        let e10 = op(self.a10);
        let e11 = op(self.a11);
        let e12 = op(self.a12);
        let e13 = op(self.a13);
        let e20 = op(self.a20);
        let e21 = op(self.a21);
        let e22 = op(self.a22);
        let e23 = op(self.a23);
        let e30 = op(self.a30);
        let e31 = op(self.a31);
        let e32 = op(self.a32);
        let e33 = op(self.a33);
        matrix4(
            e00, e01, e02, e03,
            e10, e11, e12, e13,
            e20, e21, e22, e23,
            e30, e31, e32, e33,
        )
    }

    /// The tuple `t` under this matrix, where `dot` multiplies a row by a
    /// tuple: component `i` is what `dot` makes of row `i` and `t`.
    pub fn mul_tuple_by<F: Fn((T, T, T, T), (T, T, T, T)) -> T>(
        self,
        t: (T, T, T, T),
        dot: F,
    ) -> (image: (T, T, T, T))
        requires
            forall|i: int| 0 <= i < 4 ==> dot.requires((#[trigger] self.row(i), t)),
        ensures
            dot.ensures((self.row(0), t), image.0),
            dot.ensures((self.row(1), t), image.1),
            dot.ensures((self.row(2), t), image.2),
            dot.ensures((self.row(3), t), image.3),
    {
        let r0 = (self.a00, self.a01, self.a02, self.a03);
        let r1 = (self.a10, self.a11, self.a12, self.a13);
        let r2 = (self.a20, self.a21, self.a22, self.a23);
        let r3 = (self.a30, self.a31, self.a32, self.a33);
        proof {
            assert(r0 == self.row(0));
            assert(r1 == self.row(1));
            assert(r2 == self.row(2));
            assert(r3 == self.row(3));
        }
        let t0 = dot(r0, t);
        let t1 = dot(r1, t);
        let t2 = dot(r2, t);
        let t3 = dot(r3, t);
        (t0, t1, t2, t3)
    }

    /// The matrix that holds, in row `column` and column `row`, what `entry`
    /// gives for `row` and `column`: the table of `entry`, mirrored at its
    /// diagonal. This is how an inverse is laid out, where `entry` gives the
    /// cofactor of `row` and `column` over the determinant.
    pub fn from_cofactors<F: Fn(usize, usize) -> T>(entry: F) -> (m: Self)
        requires
            forall|row: usize, column: usize|
                row < 4 && column < 4 ==> entry.requires((row, column)),
        ensures
            forall|row: usize, column: usize|
                row < 4 && column < 4 ==> entry.ensures(
                    (row, column),
                    #[trigger] m.at(column as int, row as int),
                ),
    {
        let c00 = entry(0, 0);
        let c01 = entry(0, 1);
        let c02 = entry(0, 2);
        let c03 = entry(0, 3);
        let c10 = entry(1, 0);
        let c11 = entry(1, 1);
        let c12 = entry(1, 2);
        let c13 = entry(1, 3);
        let c20 = entry(2, 0);
        let c21 = entry(2, 1);
        let c22 = entry(2, 2);
        let c23 = entry(2, 3);
        let c30 = entry(3, 0);
        let c31 = entry(3, 1);
        let c32 = entry(3, 2);
        let c33 = entry(3, 3);
        matrix4(
            c00, c10, c20, c30,
            c01, c11, c21, c31,
            c02, c12, c22, c32,
            c03, c13, c23, c33,
        )
    }
}

} // verus!
