use vstd::prelude::*;

use crate::numeric::{operation, operation_fits, Element, ElementOp, One, Zero};

verus! {

/// The error of every failed shape check or out-of-bounds access.
#[derive(Debug, Clone)]
pub struct MatrixError {
    message: String,
}

impl View for MatrixError {
    type V = Seq<char>;

    closed spec fn view(&self) -> Seq<char> {
        self.message@
    }
}

impl MatrixError {
    fn new(message: &str) -> (r: MatrixError)
        ensures
            r@ == message@,
    {
        MatrixError { message: message.to_string() }
    }

    /// The error of two matrices whose shapes do not fit the operation.
    pub(crate) fn shape_mismatch() -> (r: MatrixError) {
        MatrixError::new("Matrices must be the same size")
    }

    /// The human-readable description of the failure.
    pub fn message(&self) -> (r: &str)
        ensures
            r@ == self@,
    {
        self.message.as_str()
    }
}

/// A dense row-major matrix.
#[derive(Clone, Debug)]
pub struct Matrix<T: Element> {
    v: Vec<Vec<T>>,
    rows: usize,
    cols: usize,
}

/// The rows of a vector of vectors, as sequences.
pub open spec fn rows_of<T>(v: Seq<Vec<T>>) -> Seq<Seq<T>> {
    Seq::new(v.len(), |i: int| v[i]@)
}

/// `rows` rows of `cols` cells: the cell of `src` where there is one, else zero.
pub open spec fn padded<T: Element>(src: Seq<Seq<T>>, rows: nat, cols: nat) -> Seq<Seq<T>> {
    Seq::new(
        rows,
        |i: int|
            Seq::new(
                cols,
                |j: int|
                    if i < src.len() && j < src[i].len() {
                        src[i][j]
                    } else {
                        T::spec_zero()
                    },
            ),
    )
}

/// `rows` rows of `cols` cells, each holding `value`.
pub open spec fn filled<T>(rows: nat, cols: nat, value: T) -> Seq<Seq<T>> {
    Seq::new(rows, |i: int| Seq::new(cols, |j: int| value))
}

/// The length of the longest row; zero when there is none.
pub open spec fn max_row_len<T>(rows: Seq<Seq<T>>) -> nat
    decreases rows.len(),
{
    if rows.len() == 0 {
        0
    } else {
        let rest = max_row_len(rows.drop_last());
        if rows.last().len() > rest {
            rows.last().len()
        } else {
            rest
        }
    }
}

/// `op` applied to each pair of corresponding cells of `a` and `b`.
pub open spec fn combined<T: Element>(a: Seq<Seq<T>>, b: Seq<Seq<T>>, op: ElementOp) -> Seq<Seq<T>> {
    Seq::new(a.len(), |i: int| Seq::new(a[i].len(), |j: int| op.apply(a[i][j], b[i][j])))
}

/// `op` is defined on each pair of corresponding cells of `a` and `b`.
pub open spec fn combinable<T: Element>(a: Seq<Seq<T>>, b: Seq<Seq<T>>, op: ElementOp) -> bool {
    forall|i: int, j: int|
        0 <= i < a.len() && 0 <= j < a[i].len() ==> #[trigger] op.defined(a[i][j], b[i][j])
}

/// Each cell of `a` multiplied by `scalar`.
pub open spec fn scaled<T: Element>(a: Seq<Seq<T>>, scalar: T) -> Seq<Seq<T>> {
    Seq::new(a.len(), |i: int| Seq::new(a[i].len(), |j: int| T::spec_times(a[i][j], scalar)))
}

/// Each cell of `a` can be multiplied by `scalar`.
pub open spec fn scalable<T: Element>(a: Seq<Seq<T>>, scalar: T) -> bool {
    forall|i: int, j: int| 0 <= i < a.len() && 0 <= j < a[i].len() ==> #[trigger] T::times_ok(a[i][j], scalar)
}

/// The sum over the first `k` indices `l` of `a[i][l] * b[l][j]`, accumulated from zero.
pub open spec fn dot<T: Element>(a: Seq<Seq<T>>, b: Seq<Seq<T>>, i: int, j: int, k: nat) -> T
    decreases k,
{
    if k == 0 {
        T::spec_zero()
    } else {
        T::spec_plus(
            dot(a, b, i, j, (k - 1) as nat),
            T::spec_times(a[i][k - 1], b[k - 1][j]),
        )
    }
}

/// The matrix product of `a` (`rows` by `inner`) and `b` (`inner` by `cols`).
pub open spec fn product<T: Element>(a: Seq<Seq<T>>, b: Seq<Seq<T>>, rows: nat, inner: nat, cols: nat) -> Seq<Seq<T>> {
    Seq::new(rows, |i: int| Seq::new(cols, |j: int| dot(a, b, i, j, inner)))
}

/// Step `k` of the accumulation of cell `i`, `j` of the product is defined.
pub open spec fn step_defined<T: Element>(a: Seq<Seq<T>>, b: Seq<Seq<T>>, i: int, j: int, k: int) -> bool {
    &&& T::times_ok(a[i][k], b[k][j])
    &&& T::plus_ok(dot(a, b, i, j, k as nat), T::spec_times(a[i][k], b[k][j]))
}

/// Each step of each accumulation of the product is defined.
pub open spec fn multipliable<T: Element>(a: Seq<Seq<T>>, b: Seq<Seq<T>>, rows: nat, inner: nat, cols: nat) -> bool {
    forall|i: int, j: int, k: int|
        0 <= i < rows && 0 <= j < cols && 0 <= k < inner ==> #[trigger] step_defined(a, b, i, j, k)
}

/// The rows of each band, in order, one band after the other.
pub open spec fn concat_bands<T>(bands: Seq<Seq<Seq<T>>>) -> Seq<Seq<T>>
    decreases bands.len(),
{
    if bands.len() == 0 {
        Seq::empty()
    } else {
        concat_bands(bands.drop_last()) + bands.last()
    }
}

/// Every row of `m` has `cols` cells.
pub open spec fn is_rectangular<T>(m: Seq<Seq<T>>, cols: nat) -> bool {
    forall|i: int| 0 <= i < m.len() ==> (#[trigger] m[i]).len() == cols
}

impl<T: Element> View for Matrix<T> {
    type V = Seq<Seq<T>>;

    closed spec fn view(&self) -> Seq<Seq<T>> {
        rows_of(self.v@)
    }
}

/// A `rows` by `cols` matrix built by copying the rows of `src`, truncating each
/// and padding with zero.
fn padded_rows<T: Element>(src: &Vec<Vec<T>>, rows: usize, cols: usize) -> (r: Vec<Vec<T>>)
    ensures
        r@.len() == rows,
        rows_of(r@) == padded(rows_of(src@), rows as nat, cols as nat),
{
    let mut out: Vec<Vec<T>> = Vec::new();
    let mut i: usize = 0;
    while i < rows
        invariant
            i <= rows,
            out@.len() == i,
            forall|k: int|
                0 <= k < i ==> (#[trigger] out@[k])@ == padded(
                    rows_of(src@),
                    rows as nat,
                    cols as nat,
                )[k],
        decreases rows - i,
    {
        let mut row: Vec<T> = Vec::new();
        let mut j: usize = 0;
        while j < cols
            invariant
                i < rows,
                j <= cols,
                row@.len() == j,
                forall|l: int|
                    0 <= l < j ==> #[trigger] row@[l] == padded(
                        rows_of(src@),
                        rows as nat,
                        cols as nat,
                    )[i as int][l],
            decreases cols - j,
        {
            if i < src.len() && j < src[i].len() {
                row.push(src[i][j]);
            } else {
                row.push(T::zero());
            }
            j = j + 1;
        }
        assert(row@ =~= padded(rows_of(src@), rows as nat, cols as nat)[i as int]);
        out.push(row);
        i = i + 1;
    }
    assert(rows_of(out@) =~= padded(rows_of(src@), rows as nat, cols as nat));
    out
}

/// A `rows` by `cols` block of rows, each cell holding `value`.
fn filled_rows<T: Element>(rows: usize, cols: usize, value: T) -> (r: Vec<Vec<T>>)
    ensures
        r@.len() == rows,
        rows_of(r@) == filled(rows as nat, cols as nat, value),
{
    let mut out: Vec<Vec<T>> = Vec::new();
    let mut i: usize = 0;
    while i < rows
        invariant
            i <= rows,
            out@.len() == i,
            forall|k: int| 0 <= k < i ==> (#[trigger] out@[k])@ == Seq::new(cols as nat, |j: int| value),
        decreases rows - i,
    {
        let mut row: Vec<T> = Vec::new();
        let mut j: usize = 0;
        while j < cols
            invariant
                j <= cols,
                row@.len() == j,
                forall|l: int| 0 <= l < j ==> #[trigger] row@[l] == value,
            decreases cols - j,
        {
            row.push(value);
            j = j + 1;
        }
        assert(row@ =~= Seq::new(cols as nat, |j: int| value));
        out.push(row);
        i = i + 1;
    }
    assert(rows_of(out@) =~= filled(rows as nat, cols as nat, value));
    out
}

impl<T: Element> Matrix<T> {
    /// The storage has `rows` rows of `cols` cells each.
    pub closed spec fn wf(&self) -> bool {
        &&& self.v@.len() == self.rows
        &&& forall|i: int| 0 <= i < self.v@.len() ==> (#[trigger] self.v@[i])@.len() == self.cols
    }

    /// The number of rows.
    pub closed spec fn num_rows(&self) -> nat {
        self.rows as nat
    }

    /// The number of columns.
    pub closed spec fn num_cols(&self) -> nat {
        self.cols as nat
    }

    /// Facts every well-formed matrix gives about its view.
    pub proof fn lemma_view_shape(&self)
        requires
            self.wf(),
        ensures
            self@.len() == self.num_rows(),
            is_rectangular(self@, self.num_cols()),
            self.num_rows() <= usize::MAX,
            self.num_cols() <= usize::MAX,
    {
    }

    /// The matrix whose rows are those of `v`, each of `cols` cells.
    pub(crate) fn from_rows(v: Vec<Vec<T>>, cols: usize) -> (r: Matrix<T>)
        requires
            is_rectangular(rows_of(v@), cols as nat),
        ensures
            r.wf(),
            r.num_rows() == v@.len(),
            r.num_cols() == cols,
            r@ == rows_of(v@),
    {
        proof {
            assert forall|i: int| 0 <= i < v@.len() implies (#[trigger] v@[i])@.len() == cols by {
                assert(rows_of(v@)[i] == v@[i]@);
            }
        }
        let rows = v.len();
        Matrix { v, rows, cols }
    }

    /// The matrix whose rows are those of `bands`, one band after the other;
    /// every row has `cols` cells.
    pub fn from_bands(bands: Vec<Vec<Vec<T>>>, cols: usize) -> (r: Matrix<T>)
        requires
            forall|d: int| 0 <= d < bands@.len() ==> is_rectangular(rows_of((#[trigger] bands@[d])@), cols as nat),
        ensures
            r.wf(),
            r.num_rows() == r@.len(),
            r.num_cols() == cols,
            r@ == concat_bands(Seq::new(bands@.len(), |d: int| rows_of(bands@[d]@))),
    {
        let ghost views = Seq::new(bands@.len(), |d: int| rows_of(bands@[d]@));
        let mut out: Vec<Vec<T>> = Vec::new();
        let mut d: usize = 0;
        while d < bands.len()
            invariant
                d <= bands@.len(),
                views == Seq::new(bands@.len(), |d: int| rows_of(bands@[d]@)),
                forall|e: int| 0 <= e < bands@.len() ==> is_rectangular(rows_of((#[trigger] bands@[e])@), cols as nat),
                rows_of(out@) == concat_bands(views.take(d as int)),
                is_rectangular(rows_of(out@), cols as nat),
            decreases bands.len() - d,
        {
            let mut i: usize = 0;
            let ghost before = out@;
            while i < bands[d].len()
                invariant
                    d < bands@.len(),
                    i <= bands@[d as int]@.len(),
                    is_rectangular(rows_of(bands@[d as int]@), cols as nat),
                    out@.len() == before.len() + i,
                    forall|k: int| 0 <= k < before.len() ==> #[trigger] out@[k] == before[k],
                    forall|k: int| 0 <= k < i ==> (#[trigger] out@[before.len() + k])@ == bands@[d as int]@[k]@,
                decreases bands@[d as int]@.len() - i,
            {
                let mut row: Vec<T> = Vec::new();
                let mut j: usize = 0;
                while j < bands[d][i].len()
                    invariant
                        d < bands@.len(),
                        i < bands@[d as int]@.len(),
                        j <= bands@[d as int]@[i as int]@.len(),
                        row@ == bands@[d as int]@[i as int]@.take(j as int),
                    decreases bands@[d as int]@[i as int]@.len() - j,
                {
                    row.push(bands[d][i][j]);
                    proof {
                        assert(row@ =~= bands@[d as int]@[i as int]@.take(j + 1));
                    }
                    j = j + 1;
                }
                assert(row@ =~= bands@[d as int]@[i as int]@);
                out.push(row);
                i = i + 1;
            }
            proof {
                assert(views.take(d + 1).drop_last() =~= views.take(d as int));
                assert forall|k: int| 0 <= k < out@.len() implies #[trigger] rows_of(out@)[k] == (rows_of(before)
                    + views[d as int])[k] by {
                    if k >= before.len() {
                        assert(out@[before.len() + (k - before.len())]@ == bands@[d as int]@[k - before.len()]@);
                    }
                }
                assert(rows_of(out@) =~= rows_of(before) + views[d as int]);
                assert(is_rectangular(rows_of(out@), cols as nat)) by {
                    assert forall|k: int| 0 <= k < rows_of(out@).len() implies (#[trigger] rows_of(out@)[k]).len() == cols by {
                        if k < before.len() {
                            assert(rows_of(before)[k] == out@[k]@);
                        } else {
                            assert(out@[before.len() + (k - before.len())]@ == bands@[d as int]@[k - before.len()]@);
                            assert(rows_of(bands@[d as int]@)[k - before.len()] == out@[k]@);
                        }
                    }
                }
            }
            d = d + 1;
        }
        assert(views.take(bands@.len() as int) =~= views);
        Matrix::from_rows(out, cols)
    }

    /// Builds a matrix from rows of any lengths. The width is that of the longest
    /// row; shorter rows are padded on the right with zero.
    pub fn new(v: Vec<Vec<T>>) -> (r: Matrix<T>)
        ensures
            r.wf(),
            r.num_rows() == v@.len(),
            r.num_cols() == max_row_len(rows_of(v@)),
            r@ == padded(rows_of(v@), v@.len(), max_row_len(rows_of(v@))),
    {
        let rows = v.len();
        let mut cols: usize = 0;
        let mut i: usize = 0;
        while i < rows
            invariant
                i <= rows,
                rows == v@.len(),
                cols == max_row_len(rows_of(v@).take(i as int)),
            decreases rows - i,
        {
            proof {
                assert(rows_of(v@).take(i + 1).drop_last() =~= rows_of(v@).take(i as int));
            }
            if v[i].len() > cols {
                cols = v[i].len();
            }
            i = i + 1;
        }
        assert(rows_of(v@).take(rows as int) =~= rows_of(v@));
        let out = padded_rows(&v, rows, cols);
        Matrix::from_rows(out, cols)
    }

    /// A `rows` by `cols` matrix of zeros.
    pub fn new_with_zeros(rows: usize, cols: usize) -> (r: Matrix<T>)
        ensures
            r.wf(),
            r.num_rows() == rows,
            r.num_cols() == cols,
            r@ == filled(rows as nat, cols as nat, T::spec_zero()),
    {
        let v = filled_rows(rows, cols, T::zero());
        Matrix::from_rows(v, cols)
    }

    /// A `rows` by `cols` matrix with every cell equal to `value`.
    pub fn new_with_values(rows: usize, cols: usize, value: T) -> (r: Matrix<T>)
        ensures
            r.wf(),
            r.num_rows() == rows,
            r.num_cols() == cols,
            r@ == filled(rows as nat, cols as nat, value),
    {
        let v = filled_rows(rows, cols, value);
        Matrix::from_rows(v, cols)
    }

    /// A `size` by `size` matrix with every cell (not only the diagonal) equal to one.
    pub fn identity_matrix(size: usize) -> (r: Matrix<T>)
        ensures
            r.wf(),
            r.num_rows() == size,
            r.num_cols() == size,
            r@ == filled(size as nat, size as nat, T::spec_one()),
    {
        let v = filled_rows(size, size, T::one());
        Matrix::from_rows(v, size)
    }

    /// Both matrices have the same number of rows and of columns.
    pub open spec fn same_shape(&self, other: &Matrix<T>) -> bool {
        self.num_rows() == other.num_rows() && self.num_cols() == other.num_cols()
    }

    /// True when `self` and `rhs` can be added.
    pub fn can_add_to(&self, rhs: &Matrix<T>) -> (r: bool)
        ensures
            r == self.same_shape(rhs),
    {
        same_size(self, rhs)
    }

    /// True when `rhs` can be subtracted from `self`.
    pub fn can_subtract_from(&self, rhs: &Matrix<T>) -> (r: bool)
        ensures
            r == self.same_shape(rhs),
    {
        same_size(self, rhs)
    }

    /// True when the columns of `self` are as many as the rows of `rhs`.
    pub fn can_multiply_by(&self, rhs: &Matrix<T>) -> (r: bool)
        ensures
            r == (self.num_cols() == rhs.num_rows()),
    {
        self.cols == rhs.rows
    }

    /// True when the shapes agree and `op` is defined on every pair of
    /// corresponding cells, so that the cell-wise operation can proceed.
    pub fn combinable_with(&self, rhs: &Matrix<T>, op: ElementOp) -> (r: bool)
        requires
            self.wf(),
            rhs.wf(),
        ensures
            r == (self.same_shape(rhs) && combinable(self@, rhs@, op)),
    {
        if !same_size(self, rhs) {
            return false;
        }
        let mut i: usize = 0;
        while i < self.rows
            invariant
                self.wf(),
                rhs.wf(),
                self.same_shape(rhs),
                i <= self.num_rows(),
                forall|k: int, l: int|
                    0 <= k < i && 0 <= l < self@[k].len() ==> #[trigger] op.defined(self@[k][l], rhs@[k][l]),
            decreases self.rows - i,
        {
            let mut j: usize = 0;
            while j < self.cols
                invariant
                    self.wf(),
                    rhs.wf(),
                    self.same_shape(rhs),
                    i < self.num_rows(),
                    j <= self.num_cols(),
                    forall|k: int, l: int|
                        0 <= k < i && 0 <= l < self@[k].len() ==> #[trigger] op.defined(self@[k][l], rhs@[k][l]),
                    forall|l: int| 0 <= l < j ==> #[trigger] op.defined(self@[i as int][l], rhs@[i as int][l]),
                decreases self.cols - j,
            {
                proof {
                    assert(self@[i as int] == self.v@[i as int]@);
                    assert(rhs@[i as int] == rhs.v@[i as int]@);
                }
                if !operation_fits(self.v[i][j], rhs.v[i][j], op) {
                    return false;
                }
                j = j + 1;
            }
            proof {
                assert(self@[i as int] == self.v@[i as int]@);
            }
            i = i + 1;
        }
        proof {
            assert forall|k: int, l: int| 0 <= k < self@.len() && 0 <= l < self@[k].len() implies #[trigger] op.defined(
                self@[k][l],
                rhs@[k][l],
            ) by {
                assert(self@.len() == self.num_rows());
            }
        }
        true
    }

    /// True when the columns of `self` are as many as the rows of `rhs` and
    /// every step of every accumulation of the product is defined.
    pub fn multipliable_by(&self, rhs: &Matrix<T>) -> (r: bool)
        requires
            self.wf(),
            rhs.wf(),
        ensures
            r == (self.num_cols() == rhs.num_rows() && multipliable(
                self@,
                rhs@,
                self.num_rows(),
                self.num_cols(),
                rhs.num_cols(),
            )),
    {
        if self.cols != rhs.rows {
            return false;
        }
        let ghost a = self@;
        let ghost b = rhs@;
        let mut i: usize = 0;
        while i < self.rows
            invariant
                self.wf(),
                rhs.wf(),
                self.num_cols() == rhs.num_rows(),
                a == self@,
                b == rhs@,
                i <= self.num_rows(),
                forall|x: int, y: int, z: int|
                    0 <= x < i && 0 <= y < rhs.num_cols() && 0 <= z < self.num_cols() ==> #[trigger] step_defined(a, b, x, y, z),
            decreases self.rows - i,
        {
            let mut j: usize = 0;
            while j < rhs.cols
                invariant
                    self.wf(),
                    rhs.wf(),
                    self.num_cols() == rhs.num_rows(),
                    a == self@,
                    b == rhs@,
                    i < self.num_rows(),
                    j <= rhs.num_cols(),
                    forall|x: int, y: int, z: int|
                        0 <= x < i && 0 <= y < rhs.num_cols() && 0 <= z < self.num_cols() ==> #[trigger] step_defined(a, b, x, y, z),
                    forall|y: int, z: int|
                        0 <= y < j && 0 <= z < self.num_cols() ==> #[trigger] step_defined(a, b, i as int, y, z),
                decreases rhs.cols - j,
            {
                let mut acc: T = T::zero();
                let mut k: usize = 0;
                while k < self.cols
                    invariant
                        self.wf(),
                        rhs.wf(),
                        self.num_cols() == rhs.num_rows(),
                        a == self@,
                        b == rhs@,
                        i < self.num_rows(),
                        j < rhs.num_cols(),
                        k <= self.num_cols(),
                        acc == dot(a, b, i as int, j as int, k as nat),
                        forall|x: int, y: int, z: int|
                            0 <= x < i && 0 <= y < rhs.num_cols() && 0 <= z < self.num_cols() ==> #[trigger] step_defined(a, b, x, y, z),
                        forall|y: int, z: int|
                            0 <= y < j && 0 <= z < self.num_cols() ==> #[trigger] step_defined(a, b, i as int, y, z),
                        forall|z: int| 0 <= z < k ==> #[trigger] step_defined(a, b, i as int, j as int, z),
                    decreases self.cols - k,
                {
                    proof {
                        assert(a[i as int] == self.v@[i as int]@);
                        assert(b[k as int] == rhs.v@[k as int]@);
                    }
                    let x = self.v[i][k];
                    let y = rhs.v[k][j];
                    if !T::times_fits(x, y) {
                        proof {
                            assert(!step_defined(a, b, i as int, j as int, k as int));
                        }
                        return false;
                    }
                    let term = T::times(x, y);
                    if !T::plus_fits(acc, term) {
                        proof {
                            assert(!step_defined(a, b, i as int, j as int, k as int));
                        }
                        return false;
                    }
                    acc = T::plus(acc, term);
                    k = k + 1;
                }
                j = j + 1;
            }
            i = i + 1;
        }
        true
    }

    /// Rows `start` to `end` (exclusive) of `op` applied cell by cell to `self` and `rhs`.
    pub fn combine_band(&self, rhs: &Matrix<T>, op: ElementOp, start: usize, end: usize) -> (r: Vec<Vec<T>>)
        requires
            self.wf(),
            rhs.wf(),
            self.same_shape(rhs),
            combinable(self@, rhs@, op),
            start <= end <= self.num_rows(),
        ensures
            rows_of(r@) == combined(self@, rhs@, op).subrange(start as int, end as int),
            is_rectangular(rows_of(r@), self.num_cols()),
    {
        let ghost whole = combined(self@, rhs@, op);
        let mut out: Vec<Vec<T>> = Vec::new();
        let mut row: usize = start;
        while row < end
            invariant
                self.wf(),
                rhs.wf(),
                self.same_shape(rhs),
                combinable(self@, rhs@, op),
                start <= row <= end <= self.num_rows(),
                whole == combined(self@, rhs@, op),
                out@.len() == row - start,
                forall|k: int| 0 <= k < row - start ==> (#[trigger] out@[k])@ == whole[start + k],
            decreases end - row,
        {
            let mut cells: Vec<T> = Vec::new();
            let mut col: usize = 0;
            while col < self.cols
                invariant
                    self.wf(),
                    rhs.wf(),
                    self.same_shape(rhs),
                    combinable(self@, rhs@, op),
                    row < self.num_rows(),
                    col <= self.num_cols(),
                    whole == combined(self@, rhs@, op),
                    cells@.len() == col,
                    forall|l: int| 0 <= l < col ==> #[trigger] cells@[l] == whole[row as int][l],
                decreases self.cols - col,
            {
                proof {
                    assert(self@[row as int] == self.v@[row as int]@);
                    assert(rhs@[row as int] == rhs.v@[row as int]@);
                    assert(op.defined(self@[row as int][col as int], rhs@[row as int][col as int]));
                }
                cells.push(operation(self.v[row][col], rhs.v[row][col], op));
                col = col + 1;
            }
            assert(cells@ =~= whole[row as int]);
            out.push(cells);
            row = row + 1;
        }
        assert(rows_of(out@) =~= whole.subrange(start as int, end as int));
        out
    }

    /// The cell-wise sum, or an error when the shapes differ.
    pub fn add_to(self, rhs: Matrix<T>) -> (r: Result<Matrix<T>, MatrixError>)
        requires
            self.wf(),
            rhs.wf(),
            self.same_shape(&rhs) ==> combinable(self@, rhs@, ElementOp::Add),
        ensures
            match r {
                Ok(m) => {
                    &&& self.same_shape(&rhs)
                    &&& m.wf()
                    &&& m.same_shape(&self)
                    &&& m@ == combined(self@, rhs@, ElementOp::Add)
                },
                Err(_) => !self.same_shape(&rhs),
            },
    {
        self.combine_whole(&rhs, ElementOp::Add)
    }

    /// The cell-wise difference `self - rhs`, or an error when the shapes differ.
    pub fn subtract_from(self, rhs: Matrix<T>) -> (r: Result<Matrix<T>, MatrixError>)
        requires
            self.wf(),
            rhs.wf(),
            self.same_shape(&rhs) ==> combinable(self@, rhs@, ElementOp::Sub),
        ensures
            match r {
                Ok(m) => {
                    &&& self.same_shape(&rhs)
                    &&& m.wf()
                    &&& m.same_shape(&self)
                    &&& m@ == combined(self@, rhs@, ElementOp::Sub)
                },
                Err(_) => !self.same_shape(&rhs),
            },
    {
        self.combine_whole(&rhs, ElementOp::Sub)
    }

    /// `op` applied cell by cell over all rows, or an error when the shapes differ.
    fn combine_whole(&self, rhs: &Matrix<T>, op: ElementOp) -> (r: Result<Matrix<T>, MatrixError>)
        requires
            self.wf(),
            rhs.wf(),
            self.same_shape(rhs) ==> combinable(self@, rhs@, op),
        ensures
            match r {
                Ok(m) => {
                    &&& self.same_shape(rhs)
                    &&& m.wf()
                    &&& m.same_shape(self)
                    &&& m@ == combined(self@, rhs@, op)
                },
                Err(_) => !self.same_shape(rhs),
            },
    {
        if !same_size(self, rhs) {
            return Err(MatrixError::shape_mismatch());
        }
        let v = self.combine_band(rhs, op, 0, self.rows);
        proof {
            assert(combined(self@, rhs@, op).subrange(0, self.rows as int) =~= combined(self@, rhs@, op));
        }
        Ok(Matrix::from_rows(v, self.cols))
    }

    /// The matrix product, or an error when the columns of `self` are not as
    /// many as the rows of `rhs`.
    pub fn multiply_by(self, rhs: Matrix<T>) -> (r: Result<Matrix<T>, MatrixError>)
        requires
            self.wf(),
            rhs.wf(),
            self.num_cols() == rhs.num_rows() ==> multipliable(
                self@,
                rhs@,
                self.num_rows(),
                self.num_cols(),
                rhs.num_cols(),
            ),
        ensures
            match r {
                Ok(m) => {
                    &&& self.num_cols() == rhs.num_rows()
                    &&& m.wf()
                    &&& m.num_rows() == self.num_rows()
                    &&& m.num_cols() == rhs.num_cols()
                    &&& m@ == product(self@, rhs@, self.num_rows(), self.num_cols(), rhs.num_cols())
                },
                Err(_) => self.num_cols() != rhs.num_rows(),
            },
    {
        if self.cols != rhs.rows {
            return Err(MatrixError::shape_mismatch());
        }
        let ghost a = self@;
        let ghost b = rhs@;
        let ghost p = product(a, b, self.num_rows(), self.num_cols(), rhs.num_cols());
        let mut out: Vec<Vec<T>> = Vec::new();
        let mut i: usize = 0;
        while i < self.rows
            invariant
                self.wf(),
                rhs.wf(),
                self.num_cols() == rhs.num_rows(),
                multipliable(a, b, self.num_rows(), self.num_cols(), rhs.num_cols()),
                a == self@,
                b == rhs@,
                p == product(a, b, self.num_rows(), self.num_cols(), rhs.num_cols()),
                i <= self.num_rows(),
                out@.len() == i,
                forall|k: int| 0 <= k < i ==> (#[trigger] out@[k])@ == p[k],
            decreases self.rows - i,
        {
            let mut cells: Vec<T> = Vec::new();
            let mut j: usize = 0;
            while j < rhs.cols
                invariant
                    self.wf(),
                    rhs.wf(),
                    self.num_cols() == rhs.num_rows(),
                    multipliable(a, b, self.num_rows(), self.num_cols(), rhs.num_cols()),
                    a == self@,
                    b == rhs@,
                    p == product(a, b, self.num_rows(), self.num_cols(), rhs.num_cols()),
                    i < self.num_rows(),
                    j <= rhs.num_cols(),
                    cells@.len() == j,
                    forall|l: int| 0 <= l < j ==> #[trigger] cells@[l] == p[i as int][l],
                decreases rhs.cols - j,
            {
                let mut acc: T = T::zero();
                let mut k: usize = 0;
                while k < self.cols
                    invariant
                        self.wf(),
                        rhs.wf(),
                        self.num_cols() == rhs.num_rows(),
                        multipliable(a, b, self.num_rows(), self.num_cols(), rhs.num_cols()),
                        a == self@,
                        b == rhs@,
                        i < self.num_rows(),
                        j < rhs.num_cols(),
                        k <= self.num_cols(),
                        acc == dot(a, b, i as int, j as int, k as nat),
                    decreases self.cols - k,
                {
                    proof {
                        assert(a[i as int] == self.v@[i as int]@);
                        assert(b[k as int] == rhs.v@[k as int]@);
                        assert(step_defined(a, b, i as int, j as int, k as int));
                    }
                    let term = T::times(self.v[i][k], rhs.v[k][j]);
                    acc = T::plus(acc, term);
                    k = k + 1;
                }
                cells.push(acc);
                j = j + 1;
            }
            assert(cells@ =~= p[i as int]);
            out.push(cells);
            i = i + 1;
        }
        assert(rows_of(out@) =~= p);
        Ok(Matrix::from_rows(out, rhs.cols))
    }

    /// A new matrix with every cell multiplied by `scalar`; `self` is left as it is.
    pub fn multiply_by_scalar(&self, scalar: T) -> (r: Matrix<T>)
        requires
            self.wf(),
            scalable(self@, scalar),
        ensures
            r.wf(),
            r.same_shape(self),
            r@ == scaled(self@, scalar),
    {
        let ghost want = scaled(self@, scalar);
        let mut out: Vec<Vec<T>> = Vec::new();
        let mut i: usize = 0;
        while i < self.rows
            invariant
                self.wf(),
                scalable(self@, scalar),
                want == scaled(self@, scalar),
                i <= self.num_rows(),
                out@.len() == i,
                forall|k: int| 0 <= k < i ==> (#[trigger] out@[k])@ == want[k],
            decreases self.rows - i,
        {
            let mut cells: Vec<T> = Vec::new();
            let mut j: usize = 0;
            while j < self.cols
                invariant
                    self.wf(),
                    scalable(self@, scalar),
                    want == scaled(self@, scalar),
                    i < self.num_rows(),
                    j <= self.num_cols(),
                    cells@.len() == j,
                    forall|l: int| 0 <= l < j ==> #[trigger] cells@[l] == want[i as int][l],
                decreases self.cols - j,
            {
                proof {
                    assert(self@[i as int] == self.v@[i as int]@);
                    assert(T::times_ok(self@[i as int][j as int], scalar));
                }
                cells.push(T::times(self.v[i][j], scalar));
                j = j + 1;
            }
            assert(cells@ =~= want[i as int]);
            out.push(cells);
            i = i + 1;
        }
        assert(rows_of(out@) =~= want);
        Matrix::from_rows(out, self.cols)
    }

    /// Replaces the cell at `row`, `col` with `value`, or fails, changing
    /// nothing, when either index is out of bounds.
    pub fn set_value(&mut self, row: usize, col: usize, value: T) -> (r: Result<(), MatrixError>)
        requires
            old(self).wf(),
        ensures
            final(self).wf(),
            final(self).same_shape(old(self)),
            match r {
                Ok(_) => {
                    &&& row < old(self).num_rows() && col < old(self).num_cols()
                    &&& final(self)@ == old(self)@.update(
                        row as int,
                        old(self)@[row as int].update(col as int, value),
                    )
                },
                Err(_) => {
                    &&& !(row < old(self).num_rows() && col < old(self).num_cols())
                    &&& final(self)@ == old(self)@
                },
            },
    {
        if row < self.rows && col < self.cols {
            self.replace_cell(row, col, value);
            Ok(())
        } else {
            Err(MatrixError::new("Row or column out of bounds"))
        }
    }

    /// Replaces the cell at `row`, `col` with `modifier` applied to it, or
    /// fails, changing nothing, when either index is out of bounds.
    pub fn set_value_with_modifier_function<F: Fn(T) -> T>(&mut self, row: usize, col: usize, modifier: F) -> (r: Result<(), MatrixError>)
        requires
            old(self).wf(),
            row < old(self).num_rows() && col < old(self).num_cols() ==> call_requires(
                modifier,
                (old(self)@[row as int][col as int],),
            ),
        ensures
            final(self).wf(),
            final(self).same_shape(old(self)),
            match r {
                Ok(_) => {
                    &&& row < old(self).num_rows() && col < old(self).num_cols()
                    &&& call_ensures(
                        modifier,
                        (old(self)@[row as int][col as int],),
                        final(self)@[row as int][col as int],
                    )
                    &&& final(self)@ == old(self)@.update(
                        row as int,
                        old(self)@[row as int].update(col as int, final(self)@[row as int][col as int]),
                    )
                },
                Err(_) => {
                    &&& !(row < old(self).num_rows() && col < old(self).num_cols())
                    &&& final(self)@ == old(self)@
                },
            },
    {
        if row < self.rows && col < self.cols {
            proof {
                assert(self@[row as int] == self.v@[row as int]@);
            }
            let value = modifier(self.v[row][col]);
            self.replace_cell(row, col, value);
            Ok(())
        } else {
            Err(MatrixError::new("Row or column out of bounds"))
        }
    }

    /// Writes `value` into the cell at `row`, `col`.
    fn replace_cell(&mut self, row: usize, col: usize, value: T)
        requires
            old(self).wf(),
            row < old(self).num_rows(),
            col < old(self).num_cols(),
        ensures
            final(self).wf(),
            final(self).same_shape(old(self)),
            final(self)@ == old(self)@.update(row as int, old(self)@[row as int].update(col as int, value)),
    {
        self.v[row].set(col, value);
        proof {
            assert(self@ =~= old(self)@.update(row as int, old(self)@[row as int].update(col as int, value)));
        }
    }

    /// Resizes to `rows` by `cols`: cells inside both shapes keep their value,
    /// new cells hold zero, and cells outside the new shape are dropped.
    pub fn grow_or_shrink(&mut self, rows: usize, cols: usize)
        requires
            old(self).wf(),
        ensures
            final(self).wf(),
            final(self).num_rows() == rows,
            final(self).num_cols() == cols,
            final(self)@ == padded(old(self)@, rows as nat, cols as nat),
            old(self).num_rows() == rows && old(self).num_cols() == cols ==> final(self)@ == old(self)@,
    {
        if self.rows == rows && self.cols == cols {
            proof {
                let p = padded(self@, rows as nat, cols as nat);
                assert forall|i: int| 0 <= i < rows implies #[trigger] p[i] == self@[i] by {
                    assert(self@[i] == self.v@[i]@);
                    assert(p[i] =~= self@[i]);
                }
                assert(p =~= self@);
            }
            return;
        }
        let v = padded_rows(&self.v, rows, cols);
        proof {
            assert(rows_of(self.v@) == self@);
        }
        *self = Matrix::from_rows(v, cols);
    }

    /// The number of columns.
    pub fn cols(&self) -> (r: usize)
        ensures
            r == self.num_cols(),
    {
        self.cols
    }

    /// The number of rows.
    pub fn rows(&self) -> (r: usize)
        ensures
            r == self.num_rows(),
    {
        self.rows
    }

    /// The cell at `row`, `col`, or an error when either index is out of bounds.
    pub fn get_value(&self, row: usize, col: usize) -> (r: Result<T, MatrixError>)
        requires
            self.wf(),
        ensures
            match r {
                Ok(x) => row < self.num_rows() && col < self.num_cols() && x == self@[row as int][col as int],
                Err(_) => !(row < self.num_rows() && col < self.num_cols()),
            },
    {
        if row < self.rows && col < self.cols {
            Ok(self.v[row][col])
        } else {
            Err(MatrixError::new("Row or column out of bounds"))
        }
    }
}

/// Growing a matrix keeps every existing cell where it was and fills every
/// new cell with zero.
pub proof fn lemma_grow_keeps_cells<T: Element>(m: Matrix<T>, rows: nat, cols: nat)
    requires
        m.wf(),
        m.num_rows() <= rows,
        m.num_cols() <= cols,
    ensures
        padded(m@, rows, cols).len() == rows,
        is_rectangular(padded(m@, rows, cols), cols),
        forall|i: int, j: int|
            0 <= i < m.num_rows() && 0 <= j < m.num_cols() ==> #[trigger] padded(m@, rows, cols)[i][j] == m@[i][j],
        forall|i: int, j: int|
            0 <= i < rows && 0 <= j < cols && !(i < m.num_rows() && j < m.num_cols())
                ==> #[trigger] padded(m@, rows, cols)[i][j] == T::spec_zero(),
{
    assert forall|i: int, j: int|
        0 <= i < m.num_rows() && 0 <= j < m.num_cols() implies #[trigger] padded(m@, rows, cols)[i][j] == m@[i][j] by {
        assert(m@[i] == m.v@[i]@);
    }
    assert forall|i: int, j: int|
        0 <= i < rows && 0 <= j < cols && !(i < m.num_rows() && j < m.num_cols()) implies #[trigger] padded(
            m@,
            rows,
            cols,
        )[i][j] == T::spec_zero() by {
        if i < m.num_rows() {
            assert(m@[i] == m.v@[i]@);
        }
    }
}

/// True when both matrices have the same number of rows and of columns.
pub fn same_size<T: Element>(m1: &Matrix<T>, m2: &Matrix<T>) -> (r: bool)
    ensures
        r == m1.same_shape(m2),
{
    m1.rows == m2.rows && m1.cols == m2.cols
}

} // verus!
