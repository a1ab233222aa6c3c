//! A dense matrix kept row after row in one buffer.
//!
//! The model of a matrix is the sequence of its rows, together with its width
//! (which the rows alone do not give when there are none).

use vstd::prelude::*;

verus! {

/// The rows that a row-major buffer holds: row `i` is the `ncols` items from
/// position `i * ncols` on.
pub open spec fn rows_of<T>(data: Seq<T>, nrows: nat, ncols: nat) -> Seq<Seq<T>> {
    Seq::new(nrows, |i: int| data.subrange(i * ncols, (i + 1) * ncols))
}

/// Every row of `rows` with `value` appended.
pub open spec fn with_column<T>(rows: Seq<Seq<T>>, value: T) -> Seq<Seq<T>> {
    Seq::new(rows.len(), |i: int| rows[i].push(value))
}

/// Row `i` of a buffer of `nrows` rows lies inside the buffer.
pub proof fn lemma_row_bounds(nrows: int, ncols: int, i: int)
    requires
        0 <= i < nrows,
        0 <= ncols,
    ensures
        0 <= i * ncols,
        i * ncols + ncols == (i + 1) * ncols,
        (i + 1) * ncols <= nrows * ncols,
{
    assert(0 <= i * ncols) by (nonlinear_arith)
        requires
            0 <= i,
            0 <= ncols,
    ;
    assert(i * ncols + ncols == (i + 1) * ncols) by (nonlinear_arith);
    assert((i + 1) * ncols <= nrows * ncols) by (nonlinear_arith)
        requires
            i + 1 <= nrows,
            0 <= ncols,
    ;
}

/// Appending one full row to a buffer appends that row to the rows it holds.
pub proof fn lemma_rows_of_push<T>(data: Seq<T>, row: Seq<T>, nrows: nat, ncols: nat)
    requires
        data.len() == nrows * ncols,
        row.len() == ncols,
    ensures
        (data + row).len() == (nrows + 1) * ncols,
        rows_of(data + row, nrows + 1, ncols) == rows_of(data, nrows, ncols).push(row),
{
    let grown = rows_of(data + row, nrows + 1, ncols);
    let pushed = rows_of(data, nrows, ncols).push(row);
    lemma_row_bounds(nrows as int + 1, ncols as int, nrows as int);
    assert forall|i: int| 0 <= i < nrows + 1 implies grown[i] == pushed[i] by {
        lemma_row_bounds(nrows as int + 1, ncols as int, i);
        if i < nrows {
            lemma_row_bounds(nrows as int, ncols as int, i);
            assert(grown[i] =~= data.subrange(i * ncols, (i + 1) * ncols));
        } else {
            assert(grown[i] =~= row);
        }
    }
    assert(grown =~= pushed);
}

/// A dense `nrows × ncols` matrix.
#[derive(Debug)]
pub struct Matrix<T> {
    nrows: usize,
    ncols: usize,
    data: Vec<T>,
}

impl<T> View for Matrix<T> {
    type V = Seq<Seq<T>>;

    /// The rows, first to last.
    closed spec fn view(&self) -> Seq<Seq<T>> {
        rows_of(self.data@, self.nrows as nat, self.ncols as nat)
    }
}

/// Appends `src[from..to]` to `out`.
pub(crate) fn extend_copy<T: Copy>(out: &mut Vec<T>, src: &Vec<T>, from: usize, to: usize)
    requires
        from <= to <= src@.len(),
    ensures
        final(out)@ == old(out)@ + src@.subrange(from as int, to as int),
{
    let mut k: usize = from;
    while k < to
        invariant
            from <= k <= to <= src@.len(),
            out@ == old(out)@ + src@.subrange(from as int, k as int),
        decreases to - k,
    {
        out.push(src[k]);
        k += 1;
        assert(out@ =~= old(out)@ + src@.subrange(from as int, k as int));
    }
    assert(out@ =~= old(out)@ + src@.subrange(from as int, to as int));
}

impl<T> Matrix<T> {
    /// The buffer holds exactly `nrows * ncols` items.
    #[verifier::type_invariant]
    pub closed spec fn wf(&self) -> bool {
        self.data@.len() == self.nrows * self.ncols
    }

    /// The number of columns.
    pub closed spec fn width(&self) -> nat {
        self.ncols as nat
    }

    /// The numbers of rows and of columns fit the machine word.
    pub proof fn lemma_dimensions(&self)
        ensures
            self@.len() <= usize::MAX,
            self.width() <= usize::MAX,
    {
    }

    /// Every row of a well-formed matrix has the matrix's width.
    pub proof fn lemma_rectangular(&self)
        requires
            self.wf(),
        ensures
            forall|i: int| 0 <= i < self@.len() ==> (#[trigger] self@[i]).len() == self.width(),
    {
        assert forall|i: int| 0 <= i < self@.len() implies (#[trigger] self@[i]).len()
            == self.width() by {
            lemma_row_bounds(self.nrows as int, self.ncols as int, i);
        }
    }
}

impl<T: Copy> Matrix<T> {
    /// Takes a row-major buffer as an `nrows × ncols` matrix. `None` when the
    /// buffer does not hold exactly `nrows * ncols` items.
    pub fn from_vec(nrows: usize, ncols: usize, data: Vec<T>) -> (r: Option<Matrix<T>>)
        ensures
            r is Some <==> data@.len() == nrows * ncols,
            r matches Some(m) ==> m.wf() && m.width() == ncols && m@ == rows_of(
                data@,
                nrows as nat,
                ncols as nat,
            ),
    {
        let len: usize = data.len();
        match nrows.checked_mul(ncols) {
            Some(size) => {
                if len == size {
                    Some(Matrix { nrows, ncols, data })
                } else {
                    None
                }
            },
            None => None,
        }
    }

    /// The number of rows.
    pub fn nrows(&self) -> (n: usize)
        ensures
            n == self@.len(),
    {
        self.nrows
    }

    /// The number of columns.
    pub fn ncols(&self) -> (n: usize)
        ensures
            n == self.width(),
    {
        self.ncols
    }

    /// The items row after row.
    pub fn into_vec(self) -> (data: Vec<T>)
        ensures
            data@.len() == self@.len() * self.width(),
            rows_of(data@, self@.len(), self.width()) == self@,
    {
        proof {
            use_type_invariant(&self);
        }
        self.data
    }

    /// The items row after row, borrowed.
    pub fn as_slice(&self) -> (data: &[T])
        ensures
            data@.len() == self@.len() * self.width(),
            rows_of(data@, self@.len(), self.width()) == self@,
    {
        proof {
            use_type_invariant(self);
        }
        self.data.as_slice()
    }

    /// The item in row `i` and column `j`.
    pub fn get(&self, i: usize, j: usize) -> (item: T)
        requires
            i < self@.len(),
            j < self.width(),
        ensures
            item == self@[i as int][j as int],
    {
        proof {
            use_type_invariant(self);
            lemma_row_bounds(self.nrows as int, self.ncols as int, i as int);
        }
        let len: usize = self.data.len();
        self.data[i * self.ncols + j]
    }

    /// A copy of row `i`.
    pub fn row(&self, i: usize) -> (r: Vec<T>)
        requires
            i < self@.len(),
        ensures
            r@ == self@[i as int],
            r@.len() == self.width(),
    {
        proof {
            use_type_invariant(self);
            lemma_row_bounds(self.nrows as int, self.ncols as int, i as int);
        }
        let len: usize = self.data.len();
        let start: usize = i * self.ncols;
        let mut r: Vec<T> = Vec::new();
        extend_copy(&mut r, &self.data, start, start + self.ncols);
        assert(r@ =~= self@[i as int]);
        r
    }

    /// A copy of the matrix without row `i`.
    pub fn without_row(&self, i: usize) -> (r: Matrix<T>)
        requires
            i < self@.len(),
        ensures
            r.wf(),
            r.width() == self.width(),
            r@ == self@.remove(i as int),
    {
        proof {
            use_type_invariant(self);
            lemma_row_bounds(self.nrows as int, self.ncols as int, i as int);
        }
        let len: usize = self.data.len();
        let start: usize = i * self.ncols;
        let end: usize = start + self.ncols;
        let mut data: Vec<T> = Vec::new();
        extend_copy(&mut data, &self.data, 0, start);
        extend_copy(&mut data, &self.data, end, len);
        assert((self.nrows - 1) * self.ncols == self.nrows * self.ncols - self.ncols)
            by (nonlinear_arith);
        let r = Matrix { nrows: self.nrows - 1, ncols: self.ncols, data };
        proof {
            let c = self.ncols as int;
            let n = self.nrows as int;
            assert((n - 1) * c == n * c - c) by (nonlinear_arith);
            assert forall|k: int| 0 <= k < n - 1 implies r@[k] == self@.remove(i as int)[k] by {
                lemma_row_bounds(n - 1, c, k);
                if k < i {
                    lemma_row_bounds(i as int, c, k);
                    assert(r@[k] =~= self@[k]);
                } else {
                    lemma_row_bounds(n, c, k + 1);
                    assert(k * c >= i * c) by (nonlinear_arith)
                        requires
                            k >= i,
                            c >= 0,
                    ;
                    assert(r@[k] =~= self@[k + 1]);
                }
            }
            assert(r@ =~= self@.remove(i as int));
        }
        r
    }

    /// A copy of the matrix with one more column, which holds `value` in every
    /// row.
    pub fn with_column(&self, value: T) -> (r: Matrix<T>)
        requires
            self.width() < usize::MAX,
        ensures
            r.wf(),
            r.width() == self.width() + 1,
            r@ == with_column(self@, value),
    {
        proof {
            use_type_invariant(self);
        }
        let len: usize = self.data.len();
        let mut data: Vec<T> = Vec::new();
        let mut k: usize = 0;
        while k < self.nrows
            invariant
                k <= self.nrows,
                len == self.data@.len(),
                self.ncols < usize::MAX,
                self.data@.len() == self.nrows * self.ncols,
                data@.len() == k * (self.ncols + 1),
                rows_of(data@, k as nat, (self.ncols + 1) as nat) == with_column(self@, value).take(
                    k as int,
                ),
            decreases self.nrows - k,
        {
            proof {
                lemma_row_bounds(self.nrows as int, self.ncols as int, k as int);
            }
            let ghost before = data@;
            let start: usize = k * self.ncols;
            extend_copy(&mut data, &self.data, start, start + self.ncols);
            data.push(value);
            proof {
                let row = self@[k as int].push(value);
                assert(data@ =~= before + row);
                lemma_rows_of_push(before, row, k as nat, (self.ncols + 1) as nat);
                assert(with_column(self@, value).take(k as int).push(row) =~= with_column(
                    self@,
                    value,
                ).take(k as int + 1));
            }
            k += 1;
        }
        let r = Matrix { nrows: self.nrows, ncols: self.ncols + 1, data };
        assert(with_column(self@, value).take(self.nrows as int) =~= with_column(self@, value));
        r
    }
}

} // verus!
