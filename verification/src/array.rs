//! Integer vectors and matrices stored in `ndarray` arrays.
//!
//! The arrays themselves are opaque to the verifier. What they hold is named by
//! [`vector_entries`] and [`matrix_rows`]; the private functions below state,
//! without proof, what each `ndarray` call does to those contents. Everything
//! public is verified against those statements.

use vstd::prelude::*;

verus! {

/// A one-dimensional `ndarray::Array1<i64>`.
///
/// Trusted: the verifier does not look inside.
#[verifier::external_body]
pub struct IntVector {
    cells: ndarray::Array1<i64>,
}

/// A two-dimensional `ndarray::Array2<i64>`. The only way to make one is
/// [`IntMatrix::zeros`], so every matrix is square.
///
/// Trusted: the verifier does not look inside.
#[verifier::external_body]
pub struct IntMatrix {
    cells: ndarray::Array2<i64>,
}

/// The elements of the array in index order: entry `i` is `cells[i]`.
pub uninterp spec fn vector_entries(v: IntVector) -> Seq<i64>;

/// The elements of the array by row: entry `[i][j]` is `cells[[i, j]]`, the
/// outer length is the number of rows, each inner length the number of columns.
pub uninterp spec fn matrix_rows(m: IntMatrix) -> Seq<Seq<i64>>;

/// Calls `ndarray::Array1::from_vec`, which takes over the vector's buffer: the
/// array holds the same elements in the same order. It panics only for
/// zero-sized element types.
#[verifier::external_body]
fn vector_from_vec(items: Vec<i64>) -> (v: IntVector)
    ensures
        vector_entries(v) == items@,
{
    IntVector { cells: ndarray::Array1::from_vec(items) }
}

/// Calls `ArrayBase::len`, the number of elements.
#[verifier::external_body]
fn vector_len(v: &IntVector) -> (n: usize)
    ensures
        n == vector_entries(*v).len(),
{
    v.cells.len()
}

/// Calls `Index<usize>` of a one-dimensional array, which returns the element
/// at an index below the length and panics at any other.
#[verifier::external_body]
fn vector_get(v: &IntVector, i: usize) -> (x: i64)
    requires
        i < vector_entries(*v).len(),
    ensures
        x == vector_entries(*v)[i as int],
{
    v.cells[i]
}

/// Calls `ArrayBase::zeros` with the shape `(n, n)`: an `n` by `n` array of
/// zeros. It panics when the element count exceeds `isize::MAX`, and the
/// allocation behind it when the byte count does; both are excluded here.
#[verifier::external_body]
fn matrix_zeros(n: usize) -> (m: IntMatrix)
    requires
        n * n * 8 <= isize::MAX,
    ensures
        matrix_rows(m) == Seq::new(n as nat, |i: int| Seq::new(n as nat, |j: int| 0i64)),
{
    IntMatrix { cells: ndarray::Array2::zeros((n, n)) }
}

/// Calls `ArrayBase::nrows`, the length of the first axis.
#[verifier::external_body]
fn matrix_nrows(m: &IntMatrix) -> (n: usize)
    ensures
        n == matrix_rows(*m).len(),
{
    m.cells.nrows()
}

/// Calls `ArrayBase::ncols`, the length of the second axis, which every row
/// shares.
#[verifier::external_body]
fn matrix_ncols(m: &IntMatrix) -> (n: usize)
    ensures
        forall|i: int|
            0 <= i < matrix_rows(*m).len() ==> (#[trigger] matrix_rows(*m)[i]).len() == n,
{
    m.cells.ncols()
}

/// Calls `Index<[usize; 2]>` of a two-dimensional array, which returns the
/// element at a row and column inside the shape and panics outside it.
#[verifier::external_body]
fn matrix_get(m: &IntMatrix, i: usize, j: usize) -> (x: i64)
    requires
        i < matrix_rows(*m).len(),
        j < matrix_rows(*m)[i as int].len(),
    ensures
        x == matrix_rows(*m)[i as int][j as int],
{
    m.cells[[i, j]]
}

/// Calls `IndexMut<[usize; 2]>` of a two-dimensional array and stores through
/// the reference: the element at that row and column is replaced, every other
/// element and the shape are unchanged. The index panics outside the shape.
#[verifier::external_body]
fn matrix_set(m: &mut IntMatrix, i: usize, j: usize, x: i64)
    requires
        i < matrix_rows(*old(m)).len(),
        j < matrix_rows(*old(m))[i as int].len(),
    ensures
        matrix_rows(*final(m)) == matrix_rows(*old(m)).update(
            i as int,
            matrix_rows(*old(m))[i as int].update(j as int, x),
        ),
{
    m.cells[[i, j]] = x;
}

impl View for IntVector {
    type V = Seq<i64>;

    open spec fn view(&self) -> Seq<i64> {
        vector_entries(*self)
    }
}

impl View for IntMatrix {
    type V = Seq<Seq<i64>>;

    open spec fn view(&self) -> Seq<Seq<i64>> {
        matrix_rows(*self)
    }
}

/// Whether a dense `n` by `n` array of 64-bit integers can be addressed.
pub open spec fn square_fits(n: int) -> bool {
    n * n * 8 <= isize::MAX
}

impl IntMatrix {
    /// Whether the matrix has `n` rows of `n` entries.
    pub open spec fn is_square(&self, n: int) -> bool {
        &&& self@.len() == n
        &&& forall|i: int| 0 <= i < n ==> (#[trigger] self@[i]).len() == n
    }

    /// Entry `(i, j)` as a mathematical integer.
    pub open spec fn entry(&self, i: int, j: int) -> int {
        self@[i][j] as int
    }

    /// The rows as sequences of mathematical integers.
    pub open spec fn values(&self) -> Seq<Seq<int>> {
        Seq::new(self@.len(), |i: int| Seq::new(self@[i].len(), |j: int| self@[i][j] as int))
    }

    /// The `n` by `n` matrix of zeros, or `None` where it cannot be addressed.
    pub fn zeros(n: usize) -> (m: Option<IntMatrix>)
        ensures
            m is Some <==> square_fits(n as int),
            m matches Some(z) ==> z.is_square(n as int) && forall|i: int, j: int|
                0 <= i < n && 0 <= j < n ==> #[trigger] z.entry(i, j) == 0,
    {
        let limit: usize = isize::MAX as usize;
        let cells = match n.checked_mul(n) {
            Some(c) => c,
            None => {
                assert(n * n * 8 > isize::MAX) by (nonlinear_arith)
                    requires
                        n * n > usize::MAX,
                        usize::MAX >= isize::MAX,
                ;
                return None;
            },
        };
        let bytes = match cells.checked_mul(8) {
            Some(b) => b,
            None => {
                return None;
            },
        };
        if bytes > limit {
            return None;
        }
        Some(matrix_zeros(n))
    }

    /// The number of rows.
    pub fn nrows(&self) -> (n: usize)
        ensures
            n == self@.len(),
    {
        matrix_nrows(self)
    }

    /// Entry `(i, j)`, or `None` outside the matrix.
    pub fn get(&self, i: usize, j: usize) -> (x: Option<i64>)
        ensures
            x == if i < self@.len() && j < self@[i as int].len() {
                Some(self@[i as int][j as int])
            } else {
                None
            },
    {
        if i < matrix_nrows(self) && j < matrix_ncols(self) {
            Some(matrix_get(self, i, j))
        } else {
            None
        }
    }

    /// Entry `(i, j)` of a matrix that has one.
    pub fn at(&self, i: usize, j: usize) -> (x: i64)
        requires
            i < self@.len(),
            j < self@[i as int].len(),
        ensures
            x == self@[i as int][j as int],
    {
        matrix_get(self, i, j)
    }

    /// Row `i` as a vector.
    pub fn row(&self, i: usize) -> (r: IntVector)
        requires
            i < self@.len(),
        ensures
            r@ == self@[i as int],
            r.values() == self.values()[i as int],
    {
        let width = matrix_ncols(self);
        let mut items: Vec<i64> = Vec::new();
        let mut j: usize = 0;
        while j < width
            invariant
                i < self@.len(),
                width == self@[i as int].len(),
                j <= width,
                items@ == self@[i as int].subrange(0, j as int),
            decreases width - j,
        {
            items.push(matrix_get(self, i, j));
            j += 1;
        }
        let r = vector_from_vec(items);
        assert(r@ =~= self@[i as int]);
        assert(r.values() =~= self.values()[i as int]);
        r
    }

    /// Replaces entry `(i, j)` and nothing else.
    pub fn put(&mut self, i: usize, j: usize, x: i64)
        requires
            i < old(self)@.len(),
            j < old(self)@[i as int].len(),
        ensures
            final(self)@ == old(self)@.update(i as int, old(self)@[i as int].update(j as int, x)),
            forall|n: int| old(self).is_square(n) ==> final(self).is_square(n),
            forall|r: int, c: int|
                0 <= r < old(self)@.len() && 0 <= c < old(self)@[r].len() ==> #[trigger] final(self)
                    .entry(r, c) == if r == i && c == j {
                    x as int
                } else {
                    old(self).entry(r, c)
                },
    {
        matrix_set(self, i, j, x)
    }
}

impl IntVector {
    /// The entries as mathematical integers.
    pub open spec fn values(&self) -> Seq<int> {
        Seq::new(self@.len(), |i: int| self@[i] as int)
    }

    /// The vector with the given entries.
    pub fn from_vec(items: Vec<i64>) -> (v: IntVector)
        ensures
            v@ == items@,
    {
        vector_from_vec(items)
    }

    /// The number of entries.
    pub fn len(&self) -> (n: usize)
        ensures
            n == self@.len(),
    {
        vector_len(self)
    }

    /// Entry `i`, or `None` past the end.
    pub fn get(&self, i: usize) -> (x: Option<i64>)
        ensures
            x == if i < self@.len() {
                Some(self@[i as int])
            } else {
                None
            },
    {
        if i < vector_len(self) {
            Some(vector_get(self, i))
        } else {
            None
        }
    }

    /// Entry `i` of a vector that has one.
    pub fn at(&self, i: usize) -> (x: i64)
        requires
            i < self@.len(),
        ensures
            x == self@[i as int],
    {
        vector_get(self, i)
    }

    /// The entries as a `Vec`.
    pub fn to_vec(&self) -> (items: Vec<i64>)
        ensures
            items@ == self@,
    {
        let n = vector_len(self);
        let mut items: Vec<i64> = Vec::new();
        let mut i: usize = 0;
        while i < n
            invariant
                n == self@.len(),
                i <= n,
                items@ == self@.subrange(0, i as int),
            decreases n - i,
        {
            items.push(vector_get(self, i));
            i += 1;
        }
        items
    }
}

} // verus!
