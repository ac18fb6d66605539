//! Exactness of the stencils on polynomials sampled on a uniform grid.
//!
//! The first-derivative rows reproduce the derivative of every cubic, the
//! second-derivative rows the second derivative of every quartic, at every
//! index of every grid of at least five points.

use vstd::prelude::*;
use vstd::arithmetic::mul::{lemma_mul_is_commutative, lemma_mul_is_distributive_add};
use crate::derivatives::{first_deriv_at, second_deriv_at};
use crate::polynomial::{
    grid_point, lemma_binomial, lemma_grid_step, lemma_hoist, lemma_swap, pw2, pw3, pw4,
};
use crate::stencil::{row_kind_at, RowKind};

verus! {

/// The polynomial `c0 + c1 y + c2 y^2 + c3 y^3`.
pub open spec fn cubic(c0: int, c1: int, c2: int, c3: int, y: int) -> int {
    c0 + c1 * y + c2 * pw2(y) + c3 * pw3(y)
}

/// The derivative of the cubic with the coefficients `c1` to `c3`.
pub open spec fn cubic_slope(c1: int, c2: int, c3: int, y: int) -> int {
    c1 + 2 * c2 * y + 3 * c3 * pw2(y)
}

/// The cubic sampled on the `n` points of a uniform grid.
pub open spec fn cubic_samples(n: nat, q0: int, h: int, c0: int, c1: int, c2: int, c3: int) -> Seq<
    int,
> {
    Seq::new(n, |k: int| cubic(c0, c1, c2, c3, grid_point(q0, h, k)))
}

/// The quartic sampled on the `n` points of a uniform grid.
pub open spec fn quartic_samples(
    n: nat,
    q0: int,
    h: int,
    c0: int,
    c1: int,
    c2: int,
    c3: int,
    c4: int,
) -> Seq<int> {
    Seq::new(n, |k: int| quartic(c0, c1, c2, c3, c4, grid_point(q0, h, k)))
}

/// How far the point at which a row takes the derivative lies from the first
/// point under its stencil.
pub open spec fn row_offset(kind: RowKind) -> int {
    match kind {
        RowKind::Leading => 0,
        RowKind::NextLeading => 1,
        RowKind::Central => 2,
        RowKind::NextTrailing => 3,
        RowKind::Trailing => 4,
    }
}

/// The polynomial `c0 + c1 y + c2 y^2 + c3 y^3 + c4 y^4`.
pub open spec fn quartic(c0: int, c1: int, c2: int, c3: int, c4: int, y: int) -> int {
    c0 + c1 * y + c2 * pw2(y) + c3 * pw3(y) + c4 * pw4(y)
}

/// The second derivative of the polynomial with the coefficients `c2` to `c4`.
pub open spec fn quartic_curvature(c2: int, c3: int, c4: int, y: int) -> int {
    2 * c2 + 6 * c3 * y + 12 * c4 * pw2(y)
}

/// Five values weighted and summed.
pub open spec fn weighted5(
    w0: int,
    w1: int,
    w2: int,
    w3: int,
    w4: int,
    a0: int,
    a1: int,
    a2: int,
    a3: int,
    a4: int,
) -> int {
    w0 * a0 + w1 * a1 + w2 * a2 + w3 * a3 + w4 * a4
}

/// A factor distributes over a sum of five.
proof fn lemma_sum5(c: int, a0: int, a1: int, a2: int, a3: int, a4: int)
    ensures
        c * (a0 + a1 + a2 + a3 + a4) == c * a0 + c * a1 + c * a2 + c * a3 + c * a4,
{
    lemma_mul_is_distributive_add(c, a0 + a1 + a2 + a3, a4);
    lemma_mul_is_distributive_add(c, a0 + a1 + a2, a3);
    lemma_mul_is_distributive_add(c, a0 + a1, a2);
    lemma_mul_is_distributive_add(c, a0, a1);
}

/// A common factor moves out of a weighted sum.
proof fn lemma_weighted_scale(
    c: int,
    w0: int,
    w1: int,
    w2: int,
    w3: int,
    w4: int,
    a0: int,
    a1: int,
    a2: int,
    a3: int,
    a4: int,
)
    ensures
        weighted5(w0, w1, w2, w3, w4, c * a0, c * a1, c * a2, c * a3, c * a4) == c * weighted5(
            w0,
            w1,
            w2,
            w3,
            w4,
            a0,
            a1,
            a2,
            a3,
            a4,
        ),
{
    lemma_swap(w0, c, a0);
    lemma_swap(w1, c, a1);
    lemma_swap(w2, c, a2);
    lemma_swap(w3, c, a3);
    lemma_swap(w4, c, a4);
    lemma_sum5(c, w0 * a0, w1 * a1, w2 * a2, w3 * a3, w4 * a4);
}

/// A weighted sum of sums is the sum of the weighted sums.
proof fn lemma_weighted_add5(
    w0: int,
    w1: int,
    w2: int,
    w3: int,
    w4: int,
    a: Seq<int>,
    b: Seq<int>,
    c: Seq<int>,
    d: Seq<int>,
    e: Seq<int>,
)
    requires
        a.len() == 5,
        b.len() == 5,
        c.len() == 5,
        d.len() == 5,
        e.len() == 5,
    ensures
        weighted5(
            w0,
            w1,
            w2,
            w3,
            w4,
            a[0] + b[0] + c[0] + d[0] + e[0],
            a[1] + b[1] + c[1] + d[1] + e[1],
            a[2] + b[2] + c[2] + d[2] + e[2],
            a[3] + b[3] + c[3] + d[3] + e[3],
            a[4] + b[4] + c[4] + d[4] + e[4],
        ) == weighted5(w0, w1, w2, w3, w4, a[0], a[1], a[2], a[3], a[4]) + weighted5(
            w0,
            w1,
            w2,
            w3,
            w4,
            b[0],
            b[1],
            b[2],
            b[3],
            b[4],
        ) + weighted5(w0, w1, w2, w3, w4, c[0], c[1], c[2], c[3], c[4]) + weighted5(
            w0,
            w1,
            w2,
            w3,
            w4,
            d[0],
            d[1],
            d[2],
            d[3],
            d[4],
        ) + weighted5(w0, w1, w2, w3, w4, e[0], e[1], e[2], e[3], e[4]),
{
    lemma_sum5(w0, a[0], b[0], c[0], d[0], e[0]);
    lemma_sum5(w1, a[1], b[1], c[1], d[1], e[1]);
    lemma_sum5(w2, a[2], b[2], c[2], d[2], e[2]);
    lemma_sum5(w3, a[3], b[3], c[3], d[3], e[3]);
    lemma_sum5(w4, a[4], b[4], c[4], d[4], e[4]);
}

/// The weighted sum of a polynomial's values is the polynomial's coefficients
/// applied to the weighted sums `s0` to `s4` of the powers.
proof fn lemma_weighted_quartic(
    w0: int,
    w1: int,
    w2: int,
    w3: int,
    w4: int,
    c0: int,
    c1: int,
    c2: int,
    c3: int,
    c4: int,
    y0: int,
    y1: int,
    y2: int,
    y3: int,
    y4: int,
    s0: int,
    s1: int,
    s2: int,
    s3: int,
    s4: int,
)
    requires
        s0 == w0 + w1 + w2 + w3 + w4,
        s1 == weighted5(w0, w1, w2, w3, w4, y0, y1, y2, y3, y4),
        s2 == weighted5(w0, w1, w2, w3, w4, pw2(y0), pw2(y1), pw2(y2), pw2(y3), pw2(y4)),
        s3 == weighted5(w0, w1, w2, w3, w4, pw3(y0), pw3(y1), pw3(y2), pw3(y3), pw3(y4)),
        s4 == weighted5(w0, w1, w2, w3, w4, pw4(y0), pw4(y1), pw4(y2), pw4(y3), pw4(y4)),
    ensures
        weighted5(
            w0,
            w1,
            w2,
            w3,
            w4,
            quartic(c0, c1, c2, c3, c4, y0),
            quartic(c0, c1, c2, c3, c4, y1),
            quartic(c0, c1, c2, c3, c4, y2),
            quartic(c0, c1, c2, c3, c4, y3),
            quartic(c0, c1, c2, c3, c4, y4),
        ) == c0 * s0 + c1 * s1 + c2 * s2 + c3 * s3 + c4 * s4,
{
    let a = seq![c0, c0, c0, c0, c0];
    let b = seq![c1 * y0, c1 * y1, c1 * y2, c1 * y3, c1 * y4];
    let c = seq![c2 * pw2(y0), c2 * pw2(y1), c2 * pw2(y2), c2 * pw2(y3), c2 * pw2(y4)];
    let d = seq![c3 * pw3(y0), c3 * pw3(y1), c3 * pw3(y2), c3 * pw3(y3), c3 * pw3(y4)];
    let e = seq![c4 * pw4(y0), c4 * pw4(y1), c4 * pw4(y2), c4 * pw4(y3), c4 * pw4(y4)];
    lemma_weighted_add5(w0, w1, w2, w3, w4, a, b, c, d, e);
    lemma_mul_is_commutative(w0, c0);
    lemma_mul_is_commutative(w1, c0);
    lemma_mul_is_commutative(w2, c0);
    lemma_mul_is_commutative(w3, c0);
    lemma_mul_is_commutative(w4, c0);
    lemma_sum5(c0, w0, w1, w2, w3, w4);
    lemma_weighted_scale(c1, w0, w1, w2, w3, w4, y0, y1, y2, y3, y4);
    lemma_weighted_scale(c2, w0, w1, w2, w3, w4, pw2(y0), pw2(y1), pw2(y2), pw2(y3), pw2(y4));
    lemma_weighted_scale(c3, w0, w1, w2, w3, w4, pw3(y0), pw3(y1), pw3(y2), pw3(y3), pw3(y4));
    lemma_weighted_scale(c4, w0, w1, w2, w3, w4, pw4(y0), pw4(y1), pw4(y2), pw4(y3), pw4(y4));
}

/// The powers of `y + u h` written out in `y` and `h`, with the powers of the
/// number `u` handed in.
proof fn lemma_shifted_powers(y: int, h: int, u: int, u2: int, u3: int, u4: int)
    requires
        u2 == u * u,
        u3 == u2 * u,
        u4 == u3 * u,
    ensures
        pw2(y + u * h) == y * y + 2 * (u * (y * h)) + u2 * (h * h),
        pw3(y + u * h) == y * y * y + 3 * (u * (y * y * h)) + 3 * (u2 * (y * h * h)) + u3 * (h * h
            * h),
        pw4(y + u * h) == y * y * y * y + 4 * (u * (y * y * y * h)) + 6 * (u2 * (y * y * h * h))
            + 4 * (u3 * (y * h * h * h)) + u4 * (h * h * h * h),
{
    lemma_binomial(y, u * h);
    lemma_hoist(y, h, u);
}

/// The coefficients of a cubic's slope collect into the slope.
proof fn lemma_slope(h: int, y: int, c1: int, c2: int, c3: int)
    ensures
        c1 * (12 * h) + c2 * (24 * (y * h)) + c3 * (36 * (y * y * h)) == 12 * h * cubic_slope(
            c1,
            c2,
            c3,
            y,
        ),
{
    let k = 12 * h;
    let p = pw2(y);
    let a = c1;
    let b = 2 * c2 * y;
    let c = 3 * c3 * p;
    lemma_mul_is_distributive_add(k, a + b, c);
    lemma_mul_is_distributive_add(k, a, b);
    assert(k * a == c1 * (12 * h)) by (nonlinear_arith)
        requires
            k == 12 * h,
            a == c1,
    ;
    assert(k * b == c2 * (24 * (y * h))) by (nonlinear_arith)
        requires
            k == 12 * h,
            b == 2 * c2 * y,
    ;
    assert(k * c == c3 * (36 * (y * y * h))) by (nonlinear_arith)
        requires
            k == 12 * h,
            c == 3 * c3 * p,
            p == y * y,
    ;
}

/// The coefficients of a quartic's curvature collect into the curvature.
proof fn lemma_curvature(h: int, y: int, c2: int, c3: int, c4: int)
    ensures
        c2 * (24 * (h * h)) + c3 * (72 * (y * h * h)) + c4 * (144 * (y * y * h * h)) == 12 * h * h
            * quartic_curvature(c2, c3, c4, y),
{
    let k = 12 * h * h;
    let p = pw2(y);
    let a = 2 * c2;
    let b = 6 * c3 * y;
    let c = 12 * c4 * p;
    lemma_mul_is_distributive_add(k, a + b, c);
    lemma_mul_is_distributive_add(k, a, b);
    assert(k * a == c2 * (24 * (h * h))) by (nonlinear_arith)
        requires
            k == 12 * h * h,
            a == 2 * c2,
    ;
    assert(k * b == c3 * (72 * (y * h * h))) by (nonlinear_arith)
        requires
            k == 12 * h * h,
            b == 6 * c3 * y,
    ;
    assert(k * c == c4 * (144 * (y * y * h * h))) by (nonlinear_arith)
        requires
            k == 12 * h * h,
            c == 12 * c4 * p,
            p == y * y,
    ;
}

/// The first-derivative row that differentiates at its point 0 is exact on
/// cubics.
proof fn lemma_first_leading(c0: int, c1: int, c2: int, c3: int, y: int, h: int)
    ensures
        weighted5(
            -22, 36, -18, 4, 0, cubic(c0, c1, c2, c3, y), cubic(c0, c1, c2, c3, y + 1 * h),
            cubic(c0, c1, c2, c3, y + 2 * h), cubic(c0, c1, c2, c3, y + 3 * h),
            cubic(c0, c1, c2, c3, y + 4 * h),
        ) == 12 * h * cubic_slope(c1, c2, c3, y),
{
    lemma_shifted_powers(y, h, 1, 1, 1, 1);
    lemma_shifted_powers(y, h, 2, 4, 8, 16);
    lemma_shifted_powers(y, h, 3, 9, 27, 81);
    lemma_shifted_powers(y, h, 4, 16, 64, 256);
    let s1 = weighted5(-22, 36, -18, 4, 0, y, y + 1 * h, y + 2 * h, y + 3 * h, y + 4 * h);
    let s2 = weighted5(
        -22, 36, -18, 4, 0, pw2(y), pw2(y + 1 * h), pw2(y + 2 * h), pw2(y + 3 * h), pw2(y + 4 * h),
    );
    let s3 = weighted5(
        -22, 36, -18, 4, 0, pw3(y), pw3(y + 1 * h), pw3(y + 2 * h), pw3(y + 3 * h), pw3(y + 4 * h),
    );
    let s4 = weighted5(
        -22, 36, -18, 4, 0, pw4(y), pw4(y + 1 * h), pw4(y + 2 * h), pw4(y + 3 * h), pw4(y + 4 * h),
    );
    assert(s1 == 12 * h);
    assert(s2 == 24 * (y * h));
    assert(s3 == 36 * (y * y * h));
    lemma_weighted_quartic(
        -22, 36, -18, 4, 0, c0, c1, c2, c3, 0, y, y + 1 * h, y + 2 * h, y + 3 * h, y + 4 * h, 0,
        12 * h, 24 * (y * h), 36 * (y * y * h), s4,
    );
    lemma_slope(h, y, c1, c2, c3);
}

/// The first-derivative row that differentiates at its point 1 is exact on
/// cubics.
proof fn lemma_first_next_leading(c0: int, c1: int, c2: int, c3: int, y: int, h: int)
    ensures
        weighted5(
            -4, -6, 12, -2, 0, cubic(c0, c1, c2, c3, y - 1 * h), cubic(c0, c1, c2, c3, y),
            cubic(c0, c1, c2, c3, y + 1 * h), cubic(c0, c1, c2, c3, y + 2 * h),
            cubic(c0, c1, c2, c3, y + 3 * h),
        ) == 12 * h * cubic_slope(c1, c2, c3, y),
{
    lemma_shifted_powers(y, h, -1, 1, -1, 1);
    lemma_shifted_powers(y, h, 1, 1, 1, 1);
    lemma_shifted_powers(y, h, 2, 4, 8, 16);
    lemma_shifted_powers(y, h, 3, 9, 27, 81);
    let s1 = weighted5(-4, -6, 12, -2, 0, y - 1 * h, y, y + 1 * h, y + 2 * h, y + 3 * h);
    let s2 = weighted5(
        -4, -6, 12, -2, 0, pw2(y - 1 * h), pw2(y), pw2(y + 1 * h), pw2(y + 2 * h), pw2(y + 3 * h),
    );
    let s3 = weighted5(
        -4, -6, 12, -2, 0, pw3(y - 1 * h), pw3(y), pw3(y + 1 * h), pw3(y + 2 * h), pw3(y + 3 * h),
    );
    let s4 = weighted5(
        -4, -6, 12, -2, 0, pw4(y - 1 * h), pw4(y), pw4(y + 1 * h), pw4(y + 2 * h), pw4(y + 3 * h),
    );
    assert(s1 == 12 * h);
    assert(s2 == 24 * (y * h));
    assert(s3 == 36 * (y * y * h));
    lemma_weighted_quartic(
        -4, -6, 12, -2, 0, c0, c1, c2, c3, 0, y - 1 * h, y, y + 1 * h, y + 2 * h, y + 3 * h, 0,
        12 * h, 24 * (y * h), 36 * (y * y * h), s4,
    );
    lemma_slope(h, y, c1, c2, c3);
}

/// The first-derivative row that differentiates at its point 2 is exact on
/// cubics.
proof fn lemma_first_central(c0: int, c1: int, c2: int, c3: int, y: int, h: int)
    ensures
        weighted5(
            1, -8, 0, 8, -1, cubic(c0, c1, c2, c3, y - 2 * h), cubic(c0, c1, c2, c3, y - 1 * h),
            cubic(c0, c1, c2, c3, y), cubic(c0, c1, c2, c3, y + 1 * h),
            cubic(c0, c1, c2, c3, y + 2 * h),
        ) == 12 * h * cubic_slope(c1, c2, c3, y),
{
    lemma_shifted_powers(y, h, -2, 4, -8, 16);
    lemma_shifted_powers(y, h, -1, 1, -1, 1);
    lemma_shifted_powers(y, h, 1, 1, 1, 1);
    lemma_shifted_powers(y, h, 2, 4, 8, 16);
    let s1 = weighted5(1, -8, 0, 8, -1, y - 2 * h, y - 1 * h, y, y + 1 * h, y + 2 * h);
    let s2 = weighted5(
        1, -8, 0, 8, -1, pw2(y - 2 * h), pw2(y - 1 * h), pw2(y), pw2(y + 1 * h), pw2(y + 2 * h),
    );
    let s3 = weighted5(
        1, -8, 0, 8, -1, pw3(y - 2 * h), pw3(y - 1 * h), pw3(y), pw3(y + 1 * h), pw3(y + 2 * h),
    );
    let s4 = weighted5(
        1, -8, 0, 8, -1, pw4(y - 2 * h), pw4(y - 1 * h), pw4(y), pw4(y + 1 * h), pw4(y + 2 * h),
    );
    assert(s1 == 12 * h);
    assert(s2 == 24 * (y * h));
    assert(s3 == 36 * (y * y * h));
    lemma_weighted_quartic(
        1, -8, 0, 8, -1, c0, c1, c2, c3, 0, y - 2 * h, y - 1 * h, y, y + 1 * h, y + 2 * h, 0,
        12 * h, 24 * (y * h), 36 * (y * y * h), s4,
    );
    lemma_slope(h, y, c1, c2, c3);
}

/// The first-derivative row that differentiates at its point 3 is exact on
/// cubics.
proof fn lemma_first_next_trailing(c0: int, c1: int, c2: int, c3: int, y: int, h: int)
    ensures
        weighted5(
            0, 2, -12, 6, 4, cubic(c0, c1, c2, c3, y - 3 * h), cubic(c0, c1, c2, c3, y - 2 * h),
            cubic(c0, c1, c2, c3, y - 1 * h), cubic(c0, c1, c2, c3, y),
            cubic(c0, c1, c2, c3, y + 1 * h),
        ) == 12 * h * cubic_slope(c1, c2, c3, y),
{
    lemma_shifted_powers(y, h, -3, 9, -27, 81);
    lemma_shifted_powers(y, h, -2, 4, -8, 16);
    lemma_shifted_powers(y, h, -1, 1, -1, 1);
    lemma_shifted_powers(y, h, 1, 1, 1, 1);
    let s1 = weighted5(0, 2, -12, 6, 4, y - 3 * h, y - 2 * h, y - 1 * h, y, y + 1 * h);
    let s2 = weighted5(
        0, 2, -12, 6, 4, pw2(y - 3 * h), pw2(y - 2 * h), pw2(y - 1 * h), pw2(y), pw2(y + 1 * h),
    );
    let s3 = weighted5(
        0, 2, -12, 6, 4, pw3(y - 3 * h), pw3(y - 2 * h), pw3(y - 1 * h), pw3(y), pw3(y + 1 * h),
    );
    let s4 = weighted5(
        0, 2, -12, 6, 4, pw4(y - 3 * h), pw4(y - 2 * h), pw4(y - 1 * h), pw4(y), pw4(y + 1 * h),
    );
    assert(s1 == 12 * h);
    assert(s2 == 24 * (y * h));
    assert(s3 == 36 * (y * y * h));
    lemma_weighted_quartic(
        0, 2, -12, 6, 4, c0, c1, c2, c3, 0, y - 3 * h, y - 2 * h, y - 1 * h, y, y + 1 * h, 0,
        12 * h, 24 * (y * h), 36 * (y * y * h), s4,
    );
    lemma_slope(h, y, c1, c2, c3);
}

/// The first-derivative row that differentiates at its point 4 is exact on
/// cubics.
proof fn lemma_first_trailing(c0: int, c1: int, c2: int, c3: int, y: int, h: int)
    ensures
        weighted5(
            0, -4, 18, -36, 22, cubic(c0, c1, c2, c3, y - 4 * h), cubic(c0, c1, c2, c3, y - 3 * h),
            cubic(c0, c1, c2, c3, y - 2 * h), cubic(c0, c1, c2, c3, y - 1 * h),
            cubic(c0, c1, c2, c3, y),
        ) == 12 * h * cubic_slope(c1, c2, c3, y),
{
    lemma_shifted_powers(y, h, -4, 16, -64, 256);
    lemma_shifted_powers(y, h, -3, 9, -27, 81);
    lemma_shifted_powers(y, h, -2, 4, -8, 16);
    lemma_shifted_powers(y, h, -1, 1, -1, 1);
    let s1 = weighted5(0, -4, 18, -36, 22, y - 4 * h, y - 3 * h, y - 2 * h, y - 1 * h, y);
    let s2 = weighted5(
        0, -4, 18, -36, 22, pw2(y - 4 * h), pw2(y - 3 * h), pw2(y - 2 * h), pw2(y - 1 * h), pw2(y),
    );
    let s3 = weighted5(
        0, -4, 18, -36, 22, pw3(y - 4 * h), pw3(y - 3 * h), pw3(y - 2 * h), pw3(y - 1 * h), pw3(y),
    );
    let s4 = weighted5(
        0, -4, 18, -36, 22, pw4(y - 4 * h), pw4(y - 3 * h), pw4(y - 2 * h), pw4(y - 1 * h), pw4(y),
    );
    assert(s1 == 12 * h);
    assert(s2 == 24 * (y * h));
    assert(s3 == 36 * (y * y * h));
    lemma_weighted_quartic(
        0, -4, 18, -36, 22, c0, c1, c2, c3, 0, y - 4 * h, y - 3 * h, y - 2 * h, y - 1 * h, y, 0,
        12 * h, 24 * (y * h), 36 * (y * y * h), s4,
    );
    lemma_slope(h, y, c1, c2, c3);
}

/// The second-derivative row that differentiates at its point 0 is exact on
/// quartics.
proof fn lemma_second_leading(c0: int, c1: int, c2: int, c3: int, c4: int, y: int, h: int)
    ensures
        weighted5(
            35, -104, 114, -56, 11, quartic(c0, c1, c2, c3, c4, y),
            quartic(c0, c1, c2, c3, c4, y + 1 * h), quartic(c0, c1, c2, c3, c4, y + 2 * h),
            quartic(c0, c1, c2, c3, c4, y + 3 * h), quartic(c0, c1, c2, c3, c4, y + 4 * h),
        ) == 12 * h * h * quartic_curvature(c2, c3, c4, y),
{
    lemma_shifted_powers(y, h, 1, 1, 1, 1);
    lemma_shifted_powers(y, h, 2, 4, 8, 16);
    lemma_shifted_powers(y, h, 3, 9, 27, 81);
    lemma_shifted_powers(y, h, 4, 16, 64, 256);
    let s1 = weighted5(35, -104, 114, -56, 11, y, y + 1 * h, y + 2 * h, y + 3 * h, y + 4 * h);
    let s2 = weighted5(
        35, -104, 114, -56, 11, pw2(y), pw2(y + 1 * h), pw2(y + 2 * h), pw2(y + 3 * h),
        pw2(y + 4 * h),
    );
    let s3 = weighted5(
        35, -104, 114, -56, 11, pw3(y), pw3(y + 1 * h), pw3(y + 2 * h), pw3(y + 3 * h),
        pw3(y + 4 * h),
    );
    let s4 = weighted5(
        35, -104, 114, -56, 11, pw4(y), pw4(y + 1 * h), pw4(y + 2 * h), pw4(y + 3 * h),
        pw4(y + 4 * h),
    );
    assert(s1 == 0);
    assert(s2 == 24 * (h * h));
    assert(s3 == 72 * (y * h * h));
    assert(s4 == 144 * (y * y * h * h));
    lemma_weighted_quartic(
        35, -104, 114, -56, 11, c0, c1, c2, c3, c4, y, y + 1 * h, y + 2 * h, y + 3 * h, y + 4 * h,
        0, 0, 24 * (h * h), 72 * (y * h * h), 144 * (y * y * h * h),
    );
    lemma_curvature(h, y, c2, c3, c4);
}

/// The second-derivative row that differentiates at its point 1 is exact on
/// quartics.
proof fn lemma_second_next_leading(c0: int, c1: int, c2: int, c3: int, c4: int, y: int, h: int)
    ensures
        weighted5(
            11, -20, 6, 4, -1, quartic(c0, c1, c2, c3, c4, y - 1 * h),
            quartic(c0, c1, c2, c3, c4, y), quartic(c0, c1, c2, c3, c4, y + 1 * h),
            quartic(c0, c1, c2, c3, c4, y + 2 * h), quartic(c0, c1, c2, c3, c4, y + 3 * h),
        ) == 12 * h * h * quartic_curvature(c2, c3, c4, y),
{
    lemma_shifted_powers(y, h, -1, 1, -1, 1);
    lemma_shifted_powers(y, h, 1, 1, 1, 1);
    lemma_shifted_powers(y, h, 2, 4, 8, 16);
    lemma_shifted_powers(y, h, 3, 9, 27, 81);
    let s1 = weighted5(11, -20, 6, 4, -1, y - 1 * h, y, y + 1 * h, y + 2 * h, y + 3 * h);
    let s2 = weighted5(
        11, -20, 6, 4, -1, pw2(y - 1 * h), pw2(y), pw2(y + 1 * h), pw2(y + 2 * h), pw2(y + 3 * h),
    );
    let s3 = weighted5(
        11, -20, 6, 4, -1, pw3(y - 1 * h), pw3(y), pw3(y + 1 * h), pw3(y + 2 * h), pw3(y + 3 * h),
    );
    let s4 = weighted5(
        11, -20, 6, 4, -1, pw4(y - 1 * h), pw4(y), pw4(y + 1 * h), pw4(y + 2 * h), pw4(y + 3 * h),
    );
    assert(s1 == 0);
    assert(s2 == 24 * (h * h));
    assert(s3 == 72 * (y * h * h));
    assert(s4 == 144 * (y * y * h * h));
    lemma_weighted_quartic(
        11, -20, 6, 4, -1, c0, c1, c2, c3, c4, y - 1 * h, y, y + 1 * h, y + 2 * h, y + 3 * h, 0, 0,
        24 * (h * h), 72 * (y * h * h), 144 * (y * y * h * h),
    );
    lemma_curvature(h, y, c2, c3, c4);
}

/// The second-derivative row that differentiates at its point 2 is exact on
/// quartics.
proof fn lemma_second_central(c0: int, c1: int, c2: int, c3: int, c4: int, y: int, h: int)
    ensures
        weighted5(
            -1, 16, -30, 16, -1, quartic(c0, c1, c2, c3, c4, y - 2 * h),
            quartic(c0, c1, c2, c3, c4, y - 1 * h), quartic(c0, c1, c2, c3, c4, y),
            quartic(c0, c1, c2, c3, c4, y + 1 * h), quartic(c0, c1, c2, c3, c4, y + 2 * h),
        ) == 12 * h * h * quartic_curvature(c2, c3, c4, y),
{
    lemma_shifted_powers(y, h, -2, 4, -8, 16);
    lemma_shifted_powers(y, h, -1, 1, -1, 1);
    lemma_shifted_powers(y, h, 1, 1, 1, 1);
    lemma_shifted_powers(y, h, 2, 4, 8, 16);
    let s1 = weighted5(-1, 16, -30, 16, -1, y - 2 * h, y - 1 * h, y, y + 1 * h, y + 2 * h);
    let s2 = weighted5(
        -1, 16, -30, 16, -1, pw2(y - 2 * h), pw2(y - 1 * h), pw2(y), pw2(y + 1 * h),
        pw2(y + 2 * h),
    );
    let s3 = weighted5(
        -1, 16, -30, 16, -1, pw3(y - 2 * h), pw3(y - 1 * h), pw3(y), pw3(y + 1 * h),
        pw3(y + 2 * h),
    );
    let s4 = weighted5(
        -1, 16, -30, 16, -1, pw4(y - 2 * h), pw4(y - 1 * h), pw4(y), pw4(y + 1 * h),
        pw4(y + 2 * h),
    );
    assert(s1 == 0);
    assert(s2 == 24 * (h * h));
    assert(s3 == 72 * (y * h * h));
    assert(s4 == 144 * (y * y * h * h));
    lemma_weighted_quartic(
        -1, 16, -30, 16, -1, c0, c1, c2, c3, c4, y - 2 * h, y - 1 * h, y, y + 1 * h, y + 2 * h, 0,
        0, 24 * (h * h), 72 * (y * h * h), 144 * (y * y * h * h),
    );
    lemma_curvature(h, y, c2, c3, c4);
}

/// The second-derivative row that differentiates at its point 3 is exact on
/// quartics.
proof fn lemma_second_next_trailing(c0: int, c1: int, c2: int, c3: int, c4: int, y: int, h: int)
    ensures
        weighted5(
            -1, 4, 6, -20, 11, quartic(c0, c1, c2, c3, c4, y - 3 * h),
            quartic(c0, c1, c2, c3, c4, y - 2 * h), quartic(c0, c1, c2, c3, c4, y - 1 * h),
            quartic(c0, c1, c2, c3, c4, y), quartic(c0, c1, c2, c3, c4, y + 1 * h),
        ) == 12 * h * h * quartic_curvature(c2, c3, c4, y),
{
    lemma_shifted_powers(y, h, -3, 9, -27, 81);
    lemma_shifted_powers(y, h, -2, 4, -8, 16);
    lemma_shifted_powers(y, h, -1, 1, -1, 1);
    lemma_shifted_powers(y, h, 1, 1, 1, 1);
    let s1 = weighted5(-1, 4, 6, -20, 11, y - 3 * h, y - 2 * h, y - 1 * h, y, y + 1 * h);
    let s2 = weighted5(
        -1, 4, 6, -20, 11, pw2(y - 3 * h), pw2(y - 2 * h), pw2(y - 1 * h), pw2(y), pw2(y + 1 * h),
    );
    let s3 = weighted5(
        -1, 4, 6, -20, 11, pw3(y - 3 * h), pw3(y - 2 * h), pw3(y - 1 * h), pw3(y), pw3(y + 1 * h),
    );
    let s4 = weighted5(
        -1, 4, 6, -20, 11, pw4(y - 3 * h), pw4(y - 2 * h), pw4(y - 1 * h), pw4(y), pw4(y + 1 * h),
    );
    assert(s1 == 0);
    assert(s2 == 24 * (h * h));
    assert(s3 == 72 * (y * h * h));
    assert(s4 == 144 * (y * y * h * h));
    lemma_weighted_quartic(
        -1, 4, 6, -20, 11, c0, c1, c2, c3, c4, y - 3 * h, y - 2 * h, y - 1 * h, y, y + 1 * h, 0, 0,
        24 * (h * h), 72 * (y * h * h), 144 * (y * y * h * h),
    );
    lemma_curvature(h, y, c2, c3, c4);
}

/// The second-derivative row that differentiates at its point 4 is exact on
/// quartics.
proof fn lemma_second_trailing(c0: int, c1: int, c2: int, c3: int, c4: int, y: int, h: int)
    ensures
        weighted5(
            11, -56, 114, -104, 35, quartic(c0, c1, c2, c3, c4, y - 4 * h),
            quartic(c0, c1, c2, c3, c4, y - 3 * h), quartic(c0, c1, c2, c3, c4, y - 2 * h),
            quartic(c0, c1, c2, c3, c4, y - 1 * h), quartic(c0, c1, c2, c3, c4, y),
        ) == 12 * h * h * quartic_curvature(c2, c3, c4, y),
{
    lemma_shifted_powers(y, h, -4, 16, -64, 256);
    lemma_shifted_powers(y, h, -3, 9, -27, 81);
    lemma_shifted_powers(y, h, -2, 4, -8, 16);
    lemma_shifted_powers(y, h, -1, 1, -1, 1);
    let s1 = weighted5(11, -56, 114, -104, 35, y - 4 * h, y - 3 * h, y - 2 * h, y - 1 * h, y);
    let s2 = weighted5(
        11, -56, 114, -104, 35, pw2(y - 4 * h), pw2(y - 3 * h), pw2(y - 2 * h), pw2(y - 1 * h),
        pw2(y),
    );
    let s3 = weighted5(
        11, -56, 114, -104, 35, pw3(y - 4 * h), pw3(y - 3 * h), pw3(y - 2 * h), pw3(y - 1 * h),
        pw3(y),
    );
    let s4 = weighted5(
        11, -56, 114, -104, 35, pw4(y - 4 * h), pw4(y - 3 * h), pw4(y - 2 * h), pw4(y - 1 * h),
        pw4(y),
    );
    assert(s1 == 0);
    assert(s2 == 24 * (h * h));
    assert(s3 == 72 * (y * h * h));
    assert(s4 == 144 * (y * y * h * h));
    lemma_weighted_quartic(
        11, -56, 114, -104, 35, c0, c1, c2, c3, c4, y - 4 * h, y - 3 * h, y - 2 * h, y - 1 * h, y,
        0, 0, 24 * (h * h), 72 * (y * h * h), 144 * (y * y * h * h),
    );
    lemma_curvature(h, y, c2, c3, c4);
}

/// The first-derivative operator is exact on cubics: applied to the samples of
/// any cubic on any uniform grid of at least five points it gives, at every
/// index, `12 * h` times the cubic's derivative at that grid point.
pub proof fn lemma_first_derivative_exact(
    n: nat,
    q0: int,
    h: int,
    c0: int,
    c1: int,
    c2: int,
    c3: int,
    i: int,
)
    requires
        n >= 5,
        0 <= i < n,
    ensures
        first_deriv_at(cubic_samples(n, q0, h, c0, c1, c2, c3), i) == 12 * h * cubic_slope(
            c1,
            c2,
            c3,
            grid_point(q0, h, i),
        ),
{
    let y = grid_point(q0, h, i);
    match row_kind_at(n as int, i) {
        RowKind::Leading => {
            lemma_grid_step(q0, h, i, 1);
            lemma_grid_step(q0, h, i, 2);
            lemma_grid_step(q0, h, i, 3);
            lemma_grid_step(q0, h, i, 4);
            lemma_first_leading(c0, c1, c2, c3, y, h);
        },
        RowKind::NextLeading => {
            lemma_grid_step(q0, h, i, -1);
            lemma_grid_step(q0, h, i, 1);
            lemma_grid_step(q0, h, i, 2);
            lemma_grid_step(q0, h, i, 3);
            lemma_first_next_leading(c0, c1, c2, c3, y, h);
        },
        RowKind::Central => {
            lemma_grid_step(q0, h, i, -2);
            lemma_grid_step(q0, h, i, -1);
            lemma_grid_step(q0, h, i, 1);
            lemma_grid_step(q0, h, i, 2);
            lemma_first_central(c0, c1, c2, c3, y, h);
        },
        RowKind::NextTrailing => {
            lemma_grid_step(q0, h, i, -3);
            lemma_grid_step(q0, h, i, -2);
            lemma_grid_step(q0, h, i, -1);
            lemma_grid_step(q0, h, i, 1);
            lemma_first_next_trailing(c0, c1, c2, c3, y, h);
        },
        RowKind::Trailing => {
            lemma_grid_step(q0, h, i, -4);
            lemma_grid_step(q0, h, i, -3);
            lemma_grid_step(q0, h, i, -2);
            lemma_grid_step(q0, h, i, -1);
            lemma_first_trailing(c0, c1, c2, c3, y, h);
        },
    }
}

/// The second-derivative operator is exact on quartics: applied to the samples
/// of any quartic on any uniform grid of at least five points it gives, at
/// every index, `12 * h * h` times the quartic's second derivative at that grid
/// point.
pub proof fn lemma_second_derivative_exact(
    n: nat,
    q0: int,
    h: int,
    c0: int,
    c1: int,
    c2: int,
    c3: int,
    c4: int,
    i: int,
)
    requires
        n >= 5,
        0 <= i < n,
    ensures
        second_deriv_at(quartic_samples(n, q0, h, c0, c1, c2, c3, c4), i) == 12 * h * h
            * quartic_curvature(c2, c3, c4, grid_point(q0, h, i)),
{
    let y = grid_point(q0, h, i);
    match row_kind_at(n as int, i) {
        RowKind::Leading => {
            lemma_grid_step(q0, h, i, 1);
            lemma_grid_step(q0, h, i, 2);
            lemma_grid_step(q0, h, i, 3);
            lemma_grid_step(q0, h, i, 4);
            lemma_second_leading(c0, c1, c2, c3, c4, y, h);
        },
        RowKind::NextLeading => {
            lemma_grid_step(q0, h, i, -1);
            lemma_grid_step(q0, h, i, 1);
            lemma_grid_step(q0, h, i, 2);
            lemma_grid_step(q0, h, i, 3);
            lemma_second_next_leading(c0, c1, c2, c3, c4, y, h);
        },
        RowKind::Central => {
            lemma_grid_step(q0, h, i, -2);
            lemma_grid_step(q0, h, i, -1);
            lemma_grid_step(q0, h, i, 1);
            lemma_grid_step(q0, h, i, 2);
            lemma_second_central(c0, c1, c2, c3, c4, y, h);
        },
        RowKind::NextTrailing => {
            lemma_grid_step(q0, h, i, -3);
            lemma_grid_step(q0, h, i, -2);
            lemma_grid_step(q0, h, i, -1);
            lemma_grid_step(q0, h, i, 1);
            lemma_second_next_trailing(c0, c1, c2, c3, c4, y, h);
        },
        RowKind::Trailing => {
            lemma_grid_step(q0, h, i, -4);
            lemma_grid_step(q0, h, i, -3);
            lemma_grid_step(q0, h, i, -2);
            lemma_grid_step(q0, h, i, -1);
            lemma_second_trailing(c0, c1, c2, c3, c4, y, h);
        },
    }
}

} // verus!
