//! A dense row-major matrix used to stage multi-scalar accumulations.

use vstd::prelude::*;

verus! {

/// Copy a byte slice into an owned vector.
pub fn to_owned_bytes(bytes: &[u8]) -> (r: Vec<u8>)
    ensures
        r@ =~= bytes@,
{
    let mut out: Vec<u8> = Vec::new();
    let mut i: usize = 0;
    while i < bytes.len()
        invariant
            i <= bytes@.len(),
            out@ =~= bytes@.subrange(0, i as int),
        decreases bytes@.len() - i,
    {
        out.push(bytes[i]);
        i += 1;
    }
    proof {
        assert(bytes@.subrange(0, bytes@.len() as int) =~= bytes@);
    }
    out
}

/// Decide equality of two byte vectors.
pub fn bytes_equal(a: &Vec<u8>, b: &Vec<u8>) -> (r: bool)
    ensures
        r == (a@ == b@),
{
    if a.len() != b.len() {
        proof {
            assert(a@ != b@);
        }
        return false;
    }
    let mut i: usize = 0;
    while i < a.len()
        invariant
            i <= a@.len(),
            a@.len() == b@.len(),
            forall|m: int| 0 <= m < i ==> a@[m] == b@[m],
        decreases a@.len() - i,
    {
        if a[i] != b[i] {
            proof {
                assert(a@ != b@);
            }
            return false;
        }
        i += 1;
    }
    proof {
        assert(a@ =~= b@);
    }
    true
}

/// A dense matrix stored in row-major order.
pub struct Matrix<T> {
    rows: usize,
    cols: usize,
    entries: Vec<T>,
}

impl<T> Matrix<T> {
    /// The number of rows.
    pub closed spec fn spec_rows(self) -> nat {
        self.rows as nat
    }

    /// The number of columns.
    pub closed spec fn spec_cols(self) -> nat {
        self.cols as nat
    }

    /// The entries in row-major order.
    pub closed spec fn spec_entries(self) -> Seq<T> {
        self.entries@
    }

    /// The storage holds exactly one entry per cell.
    pub open spec fn wf(self) -> bool {
        self.spec_entries().len() == self.spec_rows() * self.spec_cols()
    }

    /// The entry at row `r` and column `c`.
    pub open spec fn spec_index(self, r: nat, c: nat) -> T
        recommends
            self.wf(),
            r < self.spec_rows(),
            c < self.spec_cols(),
    {
        self.spec_entries()[(r * self.spec_cols() + c) as int]
    }
}

impl<T: Default> Matrix<T> {
    /// Create a matrix of the given dimensions, every entry default.
    pub fn new(rows: usize, cols: usize) -> (r: Matrix<T>)
        requires
            rows * cols <= usize::MAX,
        ensures
            r.wf(),
            r.spec_rows() == rows,
            r.spec_cols() == cols,
    {
        let n = rows * cols;
        let mut entries: Vec<T> = Vec::new();
        let mut i: usize = 0;
        while i < n
            invariant
                i <= n,
                entries@.len() == i,
            decreases n - i,
        {
            entries.push(T::default());
            i += 1;
        }
        Matrix { rows, cols, entries }
    }
}

impl<T> Matrix<T> {
    /// Read the entry at row `r` and column `c`.
    pub fn entry(&self, r: usize, c: usize) -> (e: &T)
        requires
            self.wf(),
            r < self.spec_rows(),
            c < self.spec_cols(),
        ensures
            *e == self.spec_index(r as nat, c as nat),
    {
        let n = self.entries.len();
        proof {
            vstd::arithmetic::mul::lemma_mul_inequality(
                r as int + 1,
                self.spec_rows() as int,
                self.spec_cols() as int,
            );
            vstd::arithmetic::mul::lemma_mul_is_distributive_add_other_way(
                self.spec_cols() as int,
                r as int,
                1,
            );
            assert(r * self.spec_cols() + c < n);
        }
        &self.entries[r * self.cols + c]
    }

    /// Replace the entry at row `r` and column `c`.
    pub fn set_entry(&mut self, r: usize, c: usize, value: T)
        requires
            old(self).wf(),
            r < old(self).spec_rows(),
            c < old(self).spec_cols(),
        ensures
            final(self).wf(),
            final(self).spec_rows() == old(self).spec_rows(),
            final(self).spec_cols() == old(self).spec_cols(),
            final(self).spec_entries() =~= old(self).spec_entries().update(
                r * old(self).spec_cols() + c,
                value,
            ),
    {
        let n = self.entries.len();
        proof {
            vstd::arithmetic::mul::lemma_mul_inequality(
                r as int + 1,
                self.spec_rows() as int,
                self.spec_cols() as int,
            );
            vstd::arithmetic::mul::lemma_mul_is_distributive_add_other_way(
                self.spec_cols() as int,
                r as int,
                1,
            );
            assert(r * self.spec_cols() + c < n);
        }
        let idx = r * self.cols + c;
        self.entries.set(idx, value);
    }

    /// The entries of the matrix in row-major order.
    pub fn row_major_entries(&self) -> (r: &Vec<T>)
        ensures
            r@ == self.spec_entries(),
    {
        &self.entries
    }
}

} // verus!
