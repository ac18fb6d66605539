//! The coefficient table shared by the vector and the matrix form of the
//! finite-difference operators.
//!
//! Every row of either operator is five integer coefficients laid over five
//! consecutive grid points. The first derivative at spacing `h` is the row's
//! weighted sum over `12 * h`, the second derivative the weighted sum over
//! `12 * h * h`. The one-sided rows of the first derivative use four points
//! (`-11/6, 3, -3/2, 1/3` and `-1/3, -1/2, 1, -1/6`, mirrored with the sign
//! changed at the far edge); written over the common denominator 12 they take a
//! zero as fifth coefficient.

use vstd::prelude::*;

verus! {

/// The least number of grid points on which the stencils fit.
pub const MIN_GRID_POINTS: usize = 5;

/// Which stencil a grid index takes.
#[derive(Clone, Copy, Debug, PartialEq, Eq, Structural)]
pub enum RowKind {
    /// Index 0: forward stencil.
    Leading,
    /// Index 1: forward stencil shifted by one point.
    NextLeading,
    /// Indices 2 to n-3: central stencil.
    Central,
    /// Index n-2: backward stencil shifted by one point.
    NextTrailing,
    /// Index n-1: backward stencil.
    Trailing,
}

/// Which derivative an operator takes.
#[derive(Clone, Copy, Debug, PartialEq, Eq, Structural)]
pub enum DerivOrder {
    /// The first derivative, over `12 * h`.
    First,
    /// The second derivative, over `12 * h * h`.
    Second,
}

/// The stencil of index `i` on a grid of `n` points.
pub open spec fn row_kind_at(n: int, i: int) -> RowKind {
    if i == 0 {
        RowKind::Leading
    } else if i == 1 {
        RowKind::NextLeading
    } else if i == n - 2 {
        RowKind::NextTrailing
    } else if i == n - 1 {
        RowKind::Trailing
    } else {
        RowKind::Central
    }
}

/// The first of the five consecutive grid points under the stencil of index `i`.
pub open spec fn window_start(n: int, i: int) -> int {
    if i < 2 {
        0
    } else if i >= n - 2 {
        n - 5
    } else {
        i - 2
    }
}

/// Entry `t` of the five values given, zero elsewhere.
pub open spec fn pick(t: int, a0: int, a1: int, a2: int, a3: int, a4: int) -> int {
    if t == 0 {
        a0
    } else if t == 1 {
        a1
    } else if t == 2 {
        a2
    } else if t == 3 {
        a3
    } else if t == 4 {
        a4
    } else {
        0
    }
}

/// Coefficient `t` of a first-derivative row, over the denominator `12 * h`.
pub open spec fn first_coefficient(kind: RowKind, t: int) -> int {
    match kind {
        RowKind::Leading => pick(t, -22, 36, -18, 4, 0),
        RowKind::NextLeading => pick(t, -4, -6, 12, -2, 0),
        RowKind::Central => pick(t, 1, -8, 0, 8, -1),
        RowKind::NextTrailing => pick(t, 0, 2, -12, 6, 4),
        RowKind::Trailing => pick(t, 0, -4, 18, -36, 22),
    }
}

/// Coefficient `t` of a second-derivative row, over the denominator `12 * h * h`.
pub open spec fn second_coefficient(kind: RowKind, t: int) -> int {
    match kind {
        RowKind::Leading => pick(t, 35, -104, 114, -56, 11),
        RowKind::NextLeading => pick(t, 11, -20, 6, 4, -1),
        RowKind::Central => pick(t, -1, 16, -30, 16, -1),
        RowKind::NextTrailing => pick(t, -1, 4, 6, -20, 11),
        RowKind::Trailing => pick(t, 11, -56, 114, -104, 35),
    }
}

/// Coefficient `t` of a row of the operator of the given order.
pub open spec fn coefficient(order: DerivOrder, kind: RowKind, t: int) -> int {
    match order {
        DerivOrder::First => first_coefficient(kind, t),
        DerivOrder::Second => second_coefficient(kind, t),
    }
}

/// Entry `(i, j)` of the operator's matrix on `n` points: the row's
/// coefficient where column `j` lies under the stencil, zero elsewhere.
pub open spec fn weight(order: DerivOrder, n: int, i: int, j: int) -> int {
    let s = window_start(n, i);
    if s <= j < s + 5 {
        coefficient(order, row_kind_at(n, i), j - s)
    } else {
        0
    }
}

/// Entry `(i, j)` of the first-derivative matrix on `n` points.
pub open spec fn first_weight(n: int, i: int, j: int) -> int {
    weight(DerivOrder::First, n, i, j)
}

/// Entry `(i, j)` of the second-derivative matrix on `n` points.
pub open spec fn second_weight(n: int, i: int, j: int) -> int {
    weight(DerivOrder::Second, n, i, j)
}

/// The stencil of index `i` on a grid of `n` points.
pub fn row_kind(n: usize, i: usize) -> (kind: RowKind)
    requires
        i < n,
    ensures
        kind == row_kind_at(n as int, i as int),
{
    if i == 0 {
        RowKind::Leading
    } else if i == 1 {
        RowKind::NextLeading
    } else if n - i == 2 {
        RowKind::NextTrailing
    } else if n - i == 1 {
        RowKind::Trailing
    } else {
        RowKind::Central
    }
}

/// The first grid point under the stencil of index `i`.
pub fn row_start(n: usize, i: usize) -> (start: usize)
    requires
        n >= 5,
        i < n,
    ensures
        start == window_start(n as int, i as int),
        start + 5 <= n,
{
    if i < 2 {
        0
    } else if n - i <= 2 {
        n - 5
    } else {
        i - 2
    }
}

/// The five coefficients of a first-derivative row.
pub fn first_row(kind: RowKind) -> (row: [i64; 5])
    ensures
        forall|t: int| 0 <= t < 5 ==> #[trigger] row[t] == first_coefficient(kind, t),
{
    match kind {
        RowKind::Leading => [-22, 36, -18, 4, 0],
        RowKind::NextLeading => [-4, -6, 12, -2, 0],
        RowKind::Central => [1, -8, 0, 8, -1],
        RowKind::NextTrailing => [0, 2, -12, 6, 4],
        RowKind::Trailing => [0, -4, 18, -36, 22],
    }
}

/// The five coefficients of a second-derivative row.
pub fn second_row(kind: RowKind) -> (row: [i64; 5])
    ensures
        forall|t: int| 0 <= t < 5 ==> #[trigger] row[t] == second_coefficient(kind, t),
{
    match kind {
        RowKind::Leading => [35, -104, 114, -56, 11],
        RowKind::NextLeading => [11, -20, 6, 4, -1],
        RowKind::Central => [-1, 16, -30, 16, -1],
        RowKind::NextTrailing => [-1, 4, 6, -20, 11],
        RowKind::Trailing => [11, -56, 114, -104, 35],
    }
}

/// The five coefficients of a row of the operator of the given order. None
/// exceeds 114 in magnitude.
pub fn coefficients(order: DerivOrder, kind: RowKind) -> (row: [i64; 5])
    ensures
        forall|t: int| 0 <= t < 5 ==> #[trigger] row[t] == coefficient(order, kind, t),
        forall|t: int| 0 <= t < 5 ==> -114 <= #[trigger] row[t] <= 114,
{
    match order {
        DerivOrder::First => first_row(kind),
        DerivOrder::Second => second_row(kind),
    }
}

} // verus!
