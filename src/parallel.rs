use vstd::prelude::*;

use crate::matrix::{combinable, combined, concat_bands, is_rectangular, rows_of, same_size, Matrix, MatrixError};
use crate::numeric::{Element, ElementOp};

verus! {

/// Rows per band when `rows` rows are shared among `threads` workers.
pub open spec fn spec_chunk_size(rows: nat, threads: nat) -> nat {
    rows / threads + 1
}

/// The number of bands of `size` rows (the last one possibly shorter) that
/// cover `rows` rows.
pub open spec fn chunk_count(rows: nat, size: nat) -> nat {
    if rows == 0 {
        0
    } else {
        ((rows - 1) as nat / size + 1) as nat
    }
}

/// The first row of band `c`; `rows` once the bands have run out.
pub open spec fn band_start(rows: nat, size: nat, c: nat) -> nat {
    if c * size < rows {
        c * size
    } else {
        rows
    }
}

/// The rows of the first `c` bands, each combined on its own and appended in order.
pub open spec fn assembled<T: Element>(
    a: Seq<Seq<T>>,
    b: Seq<Seq<T>>,
    op: ElementOp,
    size: nat,
    c: nat,
) -> Seq<Seq<T>>
    decreases c,
{
    if c == 0 {
        Seq::empty()
    } else {
        let prev = (c - 1) as nat;
        assembled(a, b, op, size, prev) + combined(a, b, op).subrange(
            band_start(a.len(), size, prev) as int,
            band_start(a.len(), size, c) as int,
        )
    }
}

/// Rows per band for `threads` workers: `rows / threads + 1`.
pub fn chunk_size(rows: usize, threads: usize) -> (r: usize)
    requires
        threads > 0,
        rows < usize::MAX,
    ensures
        r == spec_chunk_size(rows as nat, threads as nat),
        r > 0,
{
    proof {
        assert(rows / threads <= rows) by (nonlinear_arith)
            requires
                threads > 0,
        ;
    }
    rows / threads + 1
}

proof fn lemma_band_start_monotone(rows: nat, size: nat, c: nat)
    ensures
        band_start(rows, size, c) <= band_start(rows, size, c + 1),
{
    assert(c * size <= (c + 1) * size) by (nonlinear_arith);
}

/// The first `c` bands, appended, are the first `band_start(c)` rows of the
/// combined matrix.
proof fn lemma_assembled_prefix<T: Element>(
    a: Seq<Seq<T>>,
    b: Seq<Seq<T>>,
    op: ElementOp,
    size: nat,
    c: nat,
)
    ensures
        assembled(a, b, op, size, c) == combined(a, b, op).take(band_start(a.len(), size, c) as int),
    decreases c,
{
    let whole = combined(a, b, op);
    if c == 0 {
        assert(0 * size == 0);
        assert(whole.take(0) =~= Seq::<Seq<T>>::empty());
    } else {
        let prev = (c - 1) as nat;
        lemma_assembled_prefix(a, b, op, size, prev);
        lemma_band_start_monotone(a.len(), size, prev);
        assert(whole.take(band_start(a.len(), size, prev) as int) + whole.subrange(
            band_start(a.len(), size, prev) as int,
            band_start(a.len(), size, c) as int,
        ) =~= whole.take(band_start(a.len(), size, c) as int));
    }
}

/// `chunk_count` bands are enough to reach the last row.
proof fn lemma_count_covers(rows: nat, size: nat)
    requires
        size > 0,
    ensures
        band_start(rows, size, chunk_count(rows, size)) == rows,
{
    if rows > 0 {
        let n = (rows - 1) as nat;
        let q = n / size;
        vstd::arithmetic::div_mod::lemma_fundamental_div_mod(n as int, size as int);
        assert((q + 1) * size == q * size + size) by (nonlinear_arith);
        assert(size * q == q * size) by (nonlinear_arith);
    }
}

/// A list of bands that ends on the last row, each band starting where the
/// one before ended, has exactly `chunk_count` bands.
proof fn lemma_count_exact(rows: nat, size: nat, c: nat)
    requires
        size > 0,
        band_start(rows, size, c) == rows,
        c > 0 ==> (c - 1) * size < rows,
    ensures
        c == chunk_count(rows, size),
{
    if rows == 0 {
        if c > 0 {
            assert((c - 1) * size >= 0) by (nonlinear_arith)
                requires
                    c > 0,
            ;
        }
    } else {
        assert(0 * size == 0);
        assert(c > 0);
        assert(c * size >= rows);
        let n = (rows - 1) as nat;
        let q = n / size;
        let rem = n % size;
        vstd::arithmetic::div_mod::lemma_fundamental_div_mod(n as int, size as int);
        assert(q < c) by (nonlinear_arith)
            requires
                n == size * q + rem,
                0 <= rem,
                n < c * size,
                size > 0,
        ;
        assert(c - 1 <= q) by (nonlinear_arith)
            requires
                n == size * q + rem,
                rem < size,
                (c - 1) * size <= n,
                size > 0,
        ;
    }
}

/// The bands of `size` rows that cover `rows` rows, as pairs of a first row
/// and an end row (exclusive), in order.
pub fn band_ranges(rows: usize, size: usize) -> (r: Vec<(usize, usize)>)
    requires
        size > 0,
    ensures
        r@.len() == chunk_count(rows as nat, size as nat),
        forall|c: int|
            0 <= c < r@.len() ==> (#[trigger] r@[c]).0 == band_start(rows as nat, size as nat, c as nat)
                && r@[c].1 == band_start(rows as nat, size as nat, (c + 1) as nat),
{
    let mut out: Vec<(usize, usize)> = Vec::new();
    let mut start: usize = 0;
    assert(0 * size == 0);
    while start < rows
        invariant
            size > 0,
            start == band_start(rows as nat, size as nat, out@.len()),
            out@.len() > 0 ==> (out@.len() - 1) * size < rows,
            forall|c: int|
                0 <= c < out@.len() ==> (#[trigger] out@[c]).0 == band_start(rows as nat, size as nat, c as nat)
                    && out@[c].1 == band_start(rows as nat, size as nat, (c + 1) as nat),
        decreases rows - start,
    {
        let ghost c = out@.len();
        proof {
            assert(c * size < rows);
            assert((c + 1) * size == c * size + size) by (nonlinear_arith);
        }
        let end: usize = if rows - start > size {
            start + size
        } else {
            rows
        };
        out.push((start, end));
        start = end;
    }
    proof {
        lemma_count_exact(rows as nat, size as nat, out@.len());
    }
    out
}

/// Combining two matrices of one shape band by band, with bands of
/// `rows / threads + 1` rows, gives the same matrix as combining them whole,
/// for every positive number of threads.
pub proof fn lemma_chunked_matches_whole<T: Element>(a: Matrix<T>, b: Matrix<T>, op: ElementOp, threads: nat)
    requires
        a.wf(),
        b.wf(),
        a.same_shape(&b),
        threads > 0,
    ensures
        ({
            let size = spec_chunk_size(a.num_rows(), threads);
            assembled(a@, b@, op, size, chunk_count(a.num_rows(), size)) == combined(a@, b@, op)
        }),
{
    a.lemma_view_shape();
    let size = spec_chunk_size(a.num_rows(), threads);
    lemma_count_covers(a.num_rows(), size);
    lemma_assembled_prefix(a@, b@, op, size, chunk_count(a.num_rows(), size));
    assert(combined(a@, b@, op).take(a.num_rows() as int) =~= combined(a@, b@, op));
}

/// Cell-wise addition computed band by band over a number of workers.
pub trait AddMultiThreaded<Rhs = Self>: Sized {
    type Output;

    /// What a caller of `add_multithreaded` must establish.
    spec fn add_multithreaded_requires(&self, rhs: &Rhs, threads: usize) -> bool;

    /// What `add_multithreaded` guarantees of its result.
    spec fn add_multithreaded_ensures(&self, rhs: &Rhs, threads: usize, r: Self::Output) -> bool;

    fn add_multithreaded(&self, rhs: &Rhs, threads: usize) -> (r: Self::Output)
        requires
            self.add_multithreaded_requires(rhs, threads),
        ensures
            self.add_multithreaded_ensures(rhs, threads, r),
    ;
}

impl<T: Element> AddMultiThreaded for Matrix<T> {
    type Output = Result<Matrix<T>, MatrixError>;

    open spec fn add_multithreaded_requires(&self, rhs: &Matrix<T>, threads: usize) -> bool {
        &&& self.wf()
        &&& rhs.wf()
        &&& threads > 0
        &&& self.num_rows() < usize::MAX
        &&& self.same_shape(rhs) ==> combinable(self@, rhs@, ElementOp::Add)
    }

    open spec fn add_multithreaded_ensures(
        &self,
        rhs: &Matrix<T>,
        threads: usize,
        r: Result<Matrix<T>, MatrixError>,
    ) -> bool {
        match r {
            Ok(m) => {
                &&& self.same_shape(rhs)
                &&& m.wf()
                &&& m.same_shape(self)
                &&& m@ == combined(self@, rhs@, ElementOp::Add)
                &&& m@ == assembled(
                    self@,
                    rhs@,
                    ElementOp::Add,
                    spec_chunk_size(self.num_rows(), threads as nat),
                    chunk_count(self.num_rows(), spec_chunk_size(self.num_rows(), threads as nat)),
                )
            },
            Err(_) => !self.same_shape(rhs),
        }
    }

    fn add_multithreaded(&self, rhs: &Matrix<T>, threads: usize) -> (r: Result<Matrix<T>, MatrixError>) {
        if !same_size(self, rhs) {
            return Err(MatrixError::shape_mismatch());
        }
        Ok(multithreaded_operation(self, rhs, threads, ElementOp::Add))
    }
}

/// Cell-wise subtraction computed band by band over a number of workers.
pub trait SubMultiThreaded<Rhs = Self>: Sized {
    type Output;

    /// What a caller of `sub_multithreaded` must establish.
    spec fn sub_multithreaded_requires(&self, rhs: &Rhs, threads: usize) -> bool;

    /// What `sub_multithreaded` guarantees of its result.
    spec fn sub_multithreaded_ensures(&self, rhs: &Rhs, threads: usize, r: Self::Output) -> bool;

    fn sub_multithreaded(&self, rhs: &Rhs, threads: usize) -> (r: Self::Output)
        requires
            self.sub_multithreaded_requires(rhs, threads),
        ensures
            self.sub_multithreaded_ensures(rhs, threads, r),
    ;
}

impl<T: Element> SubMultiThreaded for Matrix<T> {
    type Output = Result<Matrix<T>, MatrixError>;

    open spec fn sub_multithreaded_requires(&self, rhs: &Matrix<T>, threads: usize) -> bool {
        &&& self.wf()
        &&& rhs.wf()
        &&& threads > 0
        &&& self.num_rows() < usize::MAX
        &&& self.same_shape(rhs) ==> combinable(self@, rhs@, ElementOp::Sub)
    }

    open spec fn sub_multithreaded_ensures(
        &self,
        rhs: &Matrix<T>,
        threads: usize,
        r: Result<Matrix<T>, MatrixError>,
    ) -> bool {
        match r {
            Ok(m) => {
                &&& self.same_shape(rhs)
                &&& m.wf()
                &&& m.same_shape(self)
                &&& m@ == combined(self@, rhs@, ElementOp::Sub)
                &&& m@ == assembled(
                    self@,
                    rhs@,
                    ElementOp::Sub,
                    spec_chunk_size(self.num_rows(), threads as nat),
                    chunk_count(self.num_rows(), spec_chunk_size(self.num_rows(), threads as nat)),
                )
            },
            Err(_) => !self.same_shape(rhs),
        }
    }

    fn sub_multithreaded(&self, rhs: &Matrix<T>, threads: usize) -> (r: Result<Matrix<T>, MatrixError>) {
        if !same_size(self, rhs) {
            return Err(MatrixError::shape_mismatch());
        }
        Ok(multithreaded_operation(self, rhs, threads, ElementOp::Sub))
    }
}

/// Combines `m1` and `m2` cell by cell with `op`, band by band, each band of
/// `chunk_size(rows, threads)` rows computed on its own.
fn multithreaded_operation<T: Element>(m1: &Matrix<T>, m2: &Matrix<T>, threads: usize, op: ElementOp) -> (r: Matrix<T>)
    requires
        m1.wf(),
        m2.wf(),
        m1.same_shape(m2),
        combinable(m1@, m2@, op),
        threads > 0,
        m1.num_rows() < usize::MAX,
    ensures
        r.wf(),
        r.same_shape(m1),
        r@ == combined(m1@, m2@, op),
        r@ == assembled(
            m1@,
            m2@,
            op,
            spec_chunk_size(m1.num_rows(), threads as nat),
            chunk_count(m1.num_rows(), spec_chunk_size(m1.num_rows(), threads as nat)),
        ),
{
    proof {
        m1.lemma_view_shape();
    }
    let rows = m1.rows();
    let size = chunk_size(rows, threads);
    let ranges = band_ranges(rows, size);
    let ghost whole = combined(m1@, m2@, op);
    let mut bands: Vec<Vec<Vec<T>>> = Vec::new();
    let mut c: usize = 0;
    while c < ranges.len()
        invariant
            m1.wf(),
            m2.wf(),
            m1.same_shape(m2),
            combinable(m1@, m2@, op),
            rows == m1.num_rows(),
            rows == m1@.len(),
            size > 0,
            whole == combined(m1@, m2@, op),
            ranges@.len() == chunk_count(rows as nat, size as nat),
            forall|d: int|
                0 <= d < ranges@.len() ==> (#[trigger] ranges@[d]).0 == band_start(rows as nat, size as nat, d as nat)
                    && ranges@[d].1 == band_start(rows as nat, size as nat, (d + 1) as nat),
            c <= ranges@.len(),
            bands@.len() == c,
            forall|d: int|
                0 <= d < c ==> is_rectangular(rows_of((#[trigger] bands@[d])@), m1.num_cols()),
            concat_bands(Seq::new(c as nat, |d: int| rows_of(bands@[d]@))) == assembled(m1@, m2@, op, size as nat, c as nat),
        decreases ranges.len() - c,
    {
        let (start, end) = ranges[c];
        proof {
            lemma_band_start_monotone(rows as nat, size as nat, c as nat);
        }
        let band = m1.combine_band(m2, op, start, end);
        let ghost before = bands@;
        bands.push(band);
        proof {
            let prev = Seq::new(c as nat, |d: int| rows_of(before[d]@));
            let next = Seq::new((c + 1) as nat, |d: int| rows_of(bands@[d]@));
            assert(next.drop_last() =~= prev);
        }
        c = c + 1;
    }
    proof {
        lemma_chunked_matches_whole(*m1, *m2, op, threads as nat);
    }
    Matrix::from_bands(bands, m1.cols())
}

} // verus!
