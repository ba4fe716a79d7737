//! What the layout of the matrices means where the arithmetic on the
//! entries is exact: the laws that tie rows and columns, submatrices, the
//! signs of the cofactors and the layout of an inverse together. With
//! floating-point entries the same equations hold up to rounding.

use crate::matrix::{is_negated, kept_index, M2, M3, M4};
use vstd::prelude::*;

verus! {

/// The product of a row and a column, or of a row and a tuple.
pub open spec fn dot4(r: (int, int, int, int), c: (int, int, int, int)) -> int {
    r.0 * c.0 + r.1 * c.1 + r.2 * c.2 + r.3 * c.3
}

/// The product of `m` and `n`: what `mul_by` makes of them with `dot4`.
pub open spec fn exact_product(m: M4<int>, n: M4<int>) -> M4<int> {
    M4 {
        a00: dot4(m.row(0), n.column(0)),
        a01: dot4(m.row(0), n.column(1)),
        a02: dot4(m.row(0), n.column(2)),
        a03: dot4(m.row(0), n.column(3)),
        a10: dot4(m.row(1), n.column(0)),
        a11: dot4(m.row(1), n.column(1)),
        a12: dot4(m.row(1), n.column(2)),
        a13: dot4(m.row(1), n.column(3)),
        a20: dot4(m.row(2), n.column(0)),
        a21: dot4(m.row(2), n.column(1)),
        a22: dot4(m.row(2), n.column(2)),
        a23: dot4(m.row(2), n.column(3)),
        a30: dot4(m.row(3), n.column(0)),
        a31: dot4(m.row(3), n.column(1)),
        a32: dot4(m.row(3), n.column(2)),
        a33: dot4(m.row(3), n.column(3)),
    }
}

/// The tuple `t` under `m`: what `mul_tuple_by` makes of them with `dot4`.
pub open spec fn exact_image(m: M4<int>, t: (int, int, int, int)) -> (int, int, int, int) {
    (dot4(m.row(0), t), dot4(m.row(1), t), dot4(m.row(2), t), dot4(m.row(3), t))
}

/// The matrix that takes every tuple to `d` times the tuple.
pub open spec fn scalar_matrix(d: int) -> M4<int> {
    M4 {
        a00: d, a01: 0, a02: 0, a03: 0,
        a10: 0, a11: d, a12: 0, a13: 0,
        a20: 0, a21: 0, a22: d, a23: 0,
        a30: 0, a31: 0, a32: 0, a33: d,
    }
}

/// The determinant of a matrix of two rows.
pub open spec fn determinant2(m: M2<int>) -> int {
    m.a00 * m.a11 - m.a10 * m.a01
}

/// The cofactor of row `row` and column `column`: the determinant of the
/// matrix without them, with its sign changed on the odd places.
pub open spec fn cofactor3(m: M3<int>, row: int, column: int) -> int {
    if is_negated(row, column) {
        -determinant2(m.without(row, column))
    } else {
        determinant2(m.without(row, column))
    }
}

/// The determinant of a matrix of three rows, expanded along its first row.
pub open spec fn determinant3(m: M3<int>) -> int {
    m.a00 * cofactor3(m, 0, 0) + m.a01 * cofactor3(m, 0, 1) + m.a02 * cofactor3(m, 0, 2)
}

/// The cofactor of row `row` and column `column`: the determinant of the
/// matrix without them, with its sign changed on the odd places.
pub open spec fn cofactor4(m: M4<int>, row: int, column: int) -> int {
    if is_negated(row, column) {
        -determinant3(m.without(row, column))
    } else {
        determinant3(m.without(row, column))
    }
}

/// The determinant of a matrix of four rows, expanded along its first row.
pub open spec fn determinant4(m: M4<int>) -> int {
    m.a00 * cofactor4(m, 0, 0) + m.a01 * cofactor4(m, 0, 1) + m.a02 * cofactor4(m, 0, 2) + m.a03
        * cofactor4(m, 0, 3)
}

/// The cofactors of `m` in the layout of an inverse, as `from_cofactors` lays
/// them out: the cofactor of row `row` and column `column` stands in row
/// `column` and column `row`. Divided by the determinant, this is the
/// inverse.
pub open spec fn adjugate(m: M4<int>) -> M4<int> {
    M4 {
        a00: cofactor4(m, 0, 0),
        a01: cofactor4(m, 1, 0),
        a02: cofactor4(m, 2, 0),
        a03: cofactor4(m, 3, 0),
        a10: cofactor4(m, 0, 1),
        a11: cofactor4(m, 1, 1),
        a12: cofactor4(m, 2, 1),
        a13: cofactor4(m, 3, 1),
        a20: cofactor4(m, 0, 2),
        a21: cofactor4(m, 1, 2),
        a22: cofactor4(m, 2, 2),
        a23: cofactor4(m, 3, 2),
        a30: cofactor4(m, 0, 3),
        a31: cofactor4(m, 1, 3),
        a32: cofactor4(m, 2, 3),
        a33: cofactor4(m, 3, 3),
    }
}

proof fn lemma_sum_times(
    b0: int, b1: int, b2: int, b3: int,
    x0: int, x1: int, x2: int, x3: int,
    t: int,
)
    ensures
        (b0 * x0 + b1 * x1 + b2 * x2 + b3 * x3) * t == b0 * (x0 * t) + b1 * (x1 * t) + b2 * (x2
            * t) + b3 * (x3 * t),
{
    assert((b0 * x0 + b1 * x1 + b2 * x2 + b3 * x3) * t == (b0 * x0) * t + (b1 * x1) * t + (b2
        * x2) * t + (b3 * x3) * t) by (nonlinear_arith);
    assert((b0 * x0) * t == b0 * (x0 * t)) by (nonlinear_arith);
    assert((b1 * x1) * t == b1 * (x1 * t)) by (nonlinear_arith);
    assert((b2 * x2) * t == b2 * (x2 * t)) by (nonlinear_arith);
    assert((b3 * x3) * t == b3 * (x3 * t)) by (nonlinear_arith);
}

proof fn lemma_times_sum(b: int, y0: int, y1: int, y2: int, y3: int)
    ensures
        b * (y0 + y1 + y2 + y3) == b * y0 + b * y1 + b * y2 + b * y3,
{
    assert(b * (y0 + y1 + y2 + y3) == b * y0 + b * y1 + b * y2 + b * y3) by (nonlinear_arith);
}

/// What the row `b` makes of the columns of `a`, taken times `t`, is what
/// `b` makes of the image of `t` under `a`.
proof fn lemma_row_acts_right_to_left(
    b: (int, int, int, int),
    a: M4<int>,
    t: (int, int, int, int),
)
    ensures
        dot4(
            (
                dot4(b, a.column(0)),
                dot4(b, a.column(1)),
                dot4(b, a.column(2)),
                dot4(b, a.column(3)),
            ),
            t,
        ) == dot4(b, exact_image(a, t)),
{
    lemma_sum_times(b.0, b.1, b.2, b.3, a.a00, a.a10, a.a20, a.a30, t.0);
    lemma_sum_times(b.0, b.1, b.2, b.3, a.a01, a.a11, a.a21, a.a31, t.1);
    lemma_sum_times(b.0, b.1, b.2, b.3, a.a02, a.a12, a.a22, a.a32, t.2);
    lemma_sum_times(b.0, b.1, b.2, b.3, a.a03, a.a13, a.a23, a.a33, t.3);
    lemma_times_sum(b.0, a.a00 * t.0, a.a01 * t.1, a.a02 * t.2, a.a03 * t.3);
    lemma_times_sum(b.1, a.a10 * t.0, a.a11 * t.1, a.a12 * t.2, a.a13 * t.3);
    lemma_times_sum(b.2, a.a20 * t.0, a.a21 * t.1, a.a22 * t.2, a.a23 * t.3);
    lemma_times_sum(b.3, a.a30 * t.0, a.a31 * t.1, a.a32 * t.2, a.a33 * t.3);
}

/// A product acts from right to left: the product of `b` and `a` takes a
/// tuple to where `b` takes what `a` makes of it. So a ray that is
/// transformed by `a` and then by `b` is the ray transformed by the product
/// of `b` and `a`: its origin and its direction are such tuples.
pub proof fn lemma_product_acts_right_to_left(b: M4<int>, a: M4<int>, t: (int, int, int, int))
    ensures
        exact_image(exact_product(b, a), t) == exact_image(b, exact_image(a, t)),
{
    lemma_row_acts_right_to_left(b.row(0), a, t);
    lemma_row_acts_right_to_left(b.row(1), a, t);
    lemma_row_acts_right_to_left(b.row(2), a, t);
    lemma_row_acts_right_to_left(b.row(3), a, t);
}

proof fn lemma_sum3_times(x: int, y: int, z: int, t: int)
    ensures
        (x + y + z) * t == x * t + y * t + z * t,
{
    assert((x + y + z) * t == x * t + y * t + z * t) by (nonlinear_arith);
}

proof fn lemma_product_of_three(a: int, u: int, v: int, y: int)
    ensures
        (a * (u * v)) * y == a * u * v * y,
        (a * (u * v)) * y == a * v * u * y,
{
    assert((a * (u * v)) * y == a * u * v * y) by (nonlinear_arith);
    assert((a * (u * v)) * y == a * v * u * y) by (nonlinear_arith);
}

proof fn lemma_difference_times(a: int, e: int, i: int, h: int, f: int, y: int)
    ensures
        (a * (e * i - h * f)) * y == a * e * i * y - a * f * h * y,
        (a * (-(e * i - h * f))) * y == a * f * h * y - a * e * i * y,
{
    let p = e * i;
    let q = h * f;
    assert((a * (p - q)) * y == (a * p) * y - (a * q) * y) by (nonlinear_arith);
    assert((a * (-(p - q))) * y == (a * q) * y - (a * p) * y) by (nonlinear_arith);
    lemma_product_of_three(a, e, i, y);
    lemma_product_of_three(a, h, f, y);
}

proof fn lemma_negation_times(d: int, y: int)
    ensures
        (-d) * y == -(d * y),
{
    assert((-d) * y == -(d * y)) by (nonlinear_arith);
}

/// The last of four factors may stand in any place.
proof fn lemma_factor_moves(w: int, x: int, y: int, z: int)
    ensures
        w * x * y * z == z * w * x * y,
        w * x * y * z == w * z * x * y,
        w * x * y * z == w * x * z * y,
{
    assert(w * x * y * z == z * w * x * y) by (nonlinear_arith);
    assert(w * x * y * z == w * z * x * y) by (nonlinear_arith);
    assert(w * x * y * z == w * x * z * y) by (nonlinear_arith);
}

/// The determinant of the three rows `a b c`, `d e f`, `g h i`, times `y`,
/// written out as six products.
proof fn lemma_minor_times(
    a: int, b: int, c: int,
    d: int, e: int, f: int,
    g: int, h: int, i: int,
    y: int,
)
    ensures
        (a * (e * i - h * f) + b * (-(d * i - g * f)) + c * (d * h - g * e)) * y == a * e * i * y
            - a * f * h * y - b * d * i * y + b * f * g * y + c * d * h * y - c * e * g * y,
{
    lemma_sum3_times(a * (e * i - h * f), b * (-(d * i - g * f)), c * (d * h - g * e), y);
    lemma_difference_times(a, e, i, h, f, y);
    lemma_difference_times(b, d, i, g, f, y);
    lemma_difference_times(c, d, h, g, e, y);
}

/// The product of four entries of `m`, one of each row: that of column `c0`
/// in the first row, of `c1` in the second, and so on.
spec fn term(m: M4<int>, c0: int, c1: int, c2: int, c3: int) -> int {
    m.at(0, c0) * m.at(1, c1) * m.at(2, c2) * m.at(3, c3)
}

/// The product of four entries of `m`, one of each row: in row `k` that of
/// column `j`, in the three other rows those of `x1`, `x2` and `x3`, from top
/// to bottom.
spec fn term_with(m: M4<int>, k: int, j: int, x1: int, x2: int, x3: int) -> int {
    if k == 0 {
        term(m, j, x1, x2, x3)
    } else if k == 1 {
        term(m, x1, j, x2, x3)
    } else if k == 2 {
        term(m, x1, x2, j, x3)
    } else {
        term(m, x1, x2, x3, j)
    }
}

/// The minor of row `k` and column `i`, times the entry in row `k` and column
/// `j`, written out as six products of four entries.
spec fn minor_times_entry(m: M4<int>, k: int, i: int, j: int) -> int {
    let c1 = kept_index(0, i);
    let c2 = kept_index(1, i);
    let c3 = kept_index(2, i);
    term_with(m, k, j, c1, c2, c3) - term_with(m, k, j, c1, c3, c2)
        - term_with(m, k, j, c2, c1, c3) + term_with(m, k, j, c2, c3, c1)
        + term_with(m, k, j, c3, c1, c2) - term_with(m, k, j, c3, c2, c1)
}

proof fn lemma_cofactor_times(m: M4<int>, k: int, i: int, j: int)
    requires
        0 <= k < 4,
        0 <= i < 4,
        0 <= j < 4,
    ensures
        cofactor4(m, k, i) * m.at(k, j) == if is_negated(k, i) {
            -minor_times_entry(m, k, i, j)
        } else {
            minor_times_entry(m, k, i, j)
        },
{
    let s = m.without(k, i);
    let y = m.at(k, j);
    let (a, b, c) = (s.a00, s.a01, s.a02);
    let (d, e, f) = (s.a10, s.a11, s.a12);
    let (g, h, z) = (s.a20, s.a21, s.a22);
    assert(determinant3(s) == a * (e * z - h * f) + b * (-(d * z - g * f)) + c * (d * h - g * e));
    lemma_minor_times(a, b, c, d, e, f, g, h, z, y);
    lemma_negation_times(determinant3(s), y);
    lemma_factor_moves(a, e, z, y);
    lemma_factor_moves(a, f, h, y);
    lemma_factor_moves(b, d, z, y);
    lemma_factor_moves(b, f, g, y);
    lemma_factor_moves(c, d, h, y);
    lemma_factor_moves(c, e, g, y);
}

proof fn lemma_determinant_by_first_row(m: M4<int>)
    ensures
        determinant4(m) == cofactor4(m, 0, 0) * m.at(0, 0) + cofactor4(m, 0, 1) * m.at(0, 1)
            + cofactor4(m, 0, 2) * m.at(0, 2) + cofactor4(m, 0, 3) * m.at(0, 3),
{
    let c0 = cofactor4(m, 0, 0);
    let c1 = cofactor4(m, 0, 1);
    let c2 = cofactor4(m, 0, 2);
    let c3 = cofactor4(m, 0, 3);
    assert(m.a00 * c0 == c0 * m.a00) by (nonlinear_arith);
    assert(m.a01 * c1 == c1 * m.a01) by (nonlinear_arith);
    assert(m.a02 * c2 == c2 * m.a02) by (nonlinear_arith);
    assert(m.a03 * c3 == c3 * m.a03) by (nonlinear_arith);
}

/// The entries of column `j`, each times the cofactor of its row and column
/// `i`, added up.
pub open spec fn column_sum(m: M4<int>, i: int, j: int) -> int {
    cofactor4(m, 0, i) * m.at(0, j) + cofactor4(m, 1, i) * m.at(1, j)
        + cofactor4(m, 2, i) * m.at(2, j) + cofactor4(m, 3, i) * m.at(3, j)
}

/// A column times its own cofactors gives the determinant, and times the
/// cofactors of another column it gives zero.
pub proof fn lemma_columns_against_cofactors(m: M4<int>)
    ensures
        forall|i: int, j: int|
            0 <= i < 4 && 0 <= j < 4 ==> #[trigger] column_sum(m, i, j) == if i == j {
                determinant4(m)
            } else {
                0
            },
{
    assert(column_sum(m, 0, 0) == determinant4(m)) by {
        lemma_cofactor_times(m, 0, 0, 0);
        lemma_cofactor_times(m, 1, 0, 0);
        lemma_cofactor_times(m, 2, 0, 0);
        lemma_cofactor_times(m, 3, 0, 0);
        lemma_cofactor_times(m, 0, 1, 1);
        lemma_cofactor_times(m, 0, 2, 2);
        lemma_cofactor_times(m, 0, 3, 3);
        lemma_determinant_by_first_row(m);
    }
    assert(column_sum(m, 0, 1) == 0) by {
        lemma_cofactor_times(m, 0, 0, 1);
        lemma_cofactor_times(m, 1, 0, 1);
        lemma_cofactor_times(m, 2, 0, 1);
        lemma_cofactor_times(m, 3, 0, 1);
    }
    assert(column_sum(m, 0, 2) == 0) by {
        lemma_cofactor_times(m, 0, 0, 2);
        lemma_cofactor_times(m, 1, 0, 2);
        lemma_cofactor_times(m, 2, 0, 2);
        lemma_cofactor_times(m, 3, 0, 2);
    }
    assert(column_sum(m, 0, 3) == 0) by {
        lemma_cofactor_times(m, 0, 0, 3);
        lemma_cofactor_times(m, 1, 0, 3);
        lemma_cofactor_times(m, 2, 0, 3);
        lemma_cofactor_times(m, 3, 0, 3);
    }
    assert(column_sum(m, 1, 0) == 0) by {
        lemma_cofactor_times(m, 0, 1, 0);
        lemma_cofactor_times(m, 1, 1, 0);
        lemma_cofactor_times(m, 2, 1, 0);
        lemma_cofactor_times(m, 3, 1, 0);
    }
    assert(column_sum(m, 1, 1) == determinant4(m)) by {
        lemma_cofactor_times(m, 0, 1, 1);
        lemma_cofactor_times(m, 1, 1, 1);
        lemma_cofactor_times(m, 2, 1, 1);
        lemma_cofactor_times(m, 3, 1, 1);
        lemma_cofactor_times(m, 0, 0, 0);
        lemma_cofactor_times(m, 0, 2, 2);
        lemma_cofactor_times(m, 0, 3, 3);
        lemma_determinant_by_first_row(m);
    }
    assert(column_sum(m, 1, 2) == 0) by {
        lemma_cofactor_times(m, 0, 1, 2);
        lemma_cofactor_times(m, 1, 1, 2);
        lemma_cofactor_times(m, 2, 1, 2);
        lemma_cofactor_times(m, 3, 1, 2);
    }
    assert(column_sum(m, 1, 3) == 0) by {
        lemma_cofactor_times(m, 0, 1, 3);
        lemma_cofactor_times(m, 1, 1, 3);
        lemma_cofactor_times(m, 2, 1, 3);
        lemma_cofactor_times(m, 3, 1, 3);
    }
    assert(column_sum(m, 2, 0) == 0) by {
        lemma_cofactor_times(m, 0, 2, 0);
        lemma_cofactor_times(m, 1, 2, 0);
        lemma_cofactor_times(m, 2, 2, 0);
        lemma_cofactor_times(m, 3, 2, 0);
    }
    assert(column_sum(m, 2, 1) == 0) by {
        lemma_cofactor_times(m, 0, 2, 1);
        lemma_cofactor_times(m, 1, 2, 1);
        lemma_cofactor_times(m, 2, 2, 1);
        lemma_cofactor_times(m, 3, 2, 1);
    }
    assert(column_sum(m, 2, 2) == determinant4(m)) by {
        lemma_cofactor_times(m, 0, 2, 2);
        lemma_cofactor_times(m, 1, 2, 2);
        lemma_cofactor_times(m, 2, 2, 2);
        lemma_cofactor_times(m, 3, 2, 2);
        lemma_cofactor_times(m, 0, 0, 0);
        lemma_cofactor_times(m, 0, 1, 1);
        lemma_cofactor_times(m, 0, 3, 3);
        lemma_determinant_by_first_row(m);
    }
    assert(column_sum(m, 2, 3) == 0) by {
        lemma_cofactor_times(m, 0, 2, 3);
        lemma_cofactor_times(m, 1, 2, 3);
        lemma_cofactor_times(m, 2, 2, 3);
        lemma_cofactor_times(m, 3, 2, 3);
    }
    assert(column_sum(m, 3, 0) == 0) by {
        lemma_cofactor_times(m, 0, 3, 0);
        lemma_cofactor_times(m, 1, 3, 0);
        lemma_cofactor_times(m, 2, 3, 0);
        lemma_cofactor_times(m, 3, 3, 0);
    }
    assert(column_sum(m, 3, 1) == 0) by {
        lemma_cofactor_times(m, 0, 3, 1);
        lemma_cofactor_times(m, 1, 3, 1);
        lemma_cofactor_times(m, 2, 3, 1);
        lemma_cofactor_times(m, 3, 3, 1);
    }
    assert(column_sum(m, 3, 2) == 0) by {
        lemma_cofactor_times(m, 0, 3, 2);
        lemma_cofactor_times(m, 1, 3, 2);
        lemma_cofactor_times(m, 2, 3, 2);
        lemma_cofactor_times(m, 3, 3, 2);
    }
    assert(column_sum(m, 3, 3) == determinant4(m)) by {
        lemma_cofactor_times(m, 0, 3, 3);
        lemma_cofactor_times(m, 1, 3, 3);
        lemma_cofactor_times(m, 2, 3, 3);
        lemma_cofactor_times(m, 3, 3, 3);
        lemma_cofactor_times(m, 0, 0, 0);
        lemma_cofactor_times(m, 0, 1, 1);
        lemma_cofactor_times(m, 0, 2, 2);
        lemma_determinant_by_first_row(m);
    }
}

/// The cofactors in the layout of an inverse, times the matrix, give the
/// determinant on the diagonal and zero elsewhere.
pub proof fn lemma_adjugate_times_matrix(m: M4<int>)
    ensures
        exact_product(adjugate(m), m) == scalar_matrix(determinant4(m)),
{
    lemma_columns_against_cofactors(m);
    let p = exact_product(adjugate(m), m);
    let d = scalar_matrix(determinant4(m));
    assert(p.a00 == column_sum(m, 0, 0));
    assert(p.a01 == column_sum(m, 0, 1));
    assert(p.a02 == column_sum(m, 0, 2));
    assert(p.a03 == column_sum(m, 0, 3));
    assert(p.a10 == column_sum(m, 1, 0));
    assert(p.a11 == column_sum(m, 1, 1));
    assert(p.a12 == column_sum(m, 1, 2));
    assert(p.a13 == column_sum(m, 1, 3));
    assert(p.a20 == column_sum(m, 2, 0));
    assert(p.a21 == column_sum(m, 2, 1));
    assert(p.a22 == column_sum(m, 2, 2));
    assert(p.a23 == column_sum(m, 2, 3));
    assert(p.a30 == column_sum(m, 3, 0));
    assert(p.a31 == column_sum(m, 3, 1));
    assert(p.a32 == column_sum(m, 3, 2));
    assert(p.a33 == column_sum(m, 3, 3));
}

/// An inverse undoes its matrix: the cofactors in the layout of an inverse
/// take the image of `t` under `m` back to `t`, times the determinant. Where
/// the determinant is not zero, the division by it gives `t` itself.
pub proof fn lemma_adjugate_undoes(m: M4<int>, t: (int, int, int, int))
    ensures
        exact_image(adjugate(m), exact_image(m, t)) == (
            determinant4(m) * t.0,
            determinant4(m) * t.1,
            determinant4(m) * t.2,
            determinant4(m) * t.3,
        ),
{
    lemma_adjugate_times_matrix(m);
    lemma_product_acts_right_to_left(adjugate(m), m, t);
    let d = determinant4(m);
    assert(exact_image(scalar_matrix(d), t) == (d * t.0, d * t.1, d * t.2, d * t.3)) by {
        assert(0 * t.0 == 0 && 0 * t.1 == 0 && 0 * t.2 == 0 && 0 * t.3 == 0);
    }
}

} // verus!
