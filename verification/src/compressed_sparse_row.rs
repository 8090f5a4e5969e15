//! A compressed sparse row (CSR) matrix.
//!
//! The format trades space for time on matrices that are mostly zero: only the
//! nonzero values are kept, with their column indices and one pointer per row
//! into the shared value list. The dense matrix a value represents is carried
//! alongside it as a ghost sequence of rows, and every operation is specified
//! against that matrix: construction records it, `get` reads one entry of it,
//! and `reconstruct` rebuilds it in full.

use vstd::prelude::*;

verus! {

/// The rows of a dense matrix, as sequences.
pub open spec fn dense_of(m: Seq<Vec<i64>>) -> Seq<Seq<i64>> {
    m.map_values(|row: Vec<i64>| row@)
}

/// One dense row of width `cols` is stored faithfully in `ci`/`vals` between
/// `lo` and `hi`: every stored entry is a nonzero entry of the row, and every
/// nonzero entry of the row is stored.
pub open spec fn row_stored_ok(
    row: Seq<i64>,
    cols: int,
    ci: Seq<usize>,
    vals: Seq<i64>,
    lo: int,
    hi: int,
) -> bool {
    &&& 0 <= lo <= hi <= vals.len()
    &&& hi <= ci.len()
    &&& forall|t: int|
        lo <= t < hi ==> (#[trigger] ci[t]) < cols && row[ci[t] as int] == vals[t] && vals[t] != 0
    &&& forall|c: int|
        0 <= c < cols && (#[trigger] row[c]) != 0 ==> exists|t: int| lo <= t < hi && ci[t] == c
}

/// A stored row stays stored when the value list grows past it.
proof fn lemma_row_ok_stable(
    row: Seq<i64>,
    cols: int,
    ci: Seq<usize>,
    vals: Seq<i64>,
    ci2: Seq<usize>,
    vals2: Seq<i64>,
    lo: int,
    hi: int,
)
    requires
        row_stored_ok(row, cols, ci, vals, lo, hi),
        ci2.len() >= hi,
        vals2.len() >= hi,
        forall|t: int| lo <= t < hi ==> (#[trigger] ci2[t]) == ci[t] && vals2[t] == vals[t],
    ensures
        row_stored_ok(row, cols, ci2, vals2, lo, hi),
{
    assert forall|c: int| 0 <= c < cols && (#[trigger] row[c]) != 0 implies exists|t: int|
        lo <= t < hi && ci2[t] == c by {
        let t = choose|t: int| lo <= t < hi && ci[t] == c;
        assert(ci2[t] == c);
    }
}

/// A sparse matrix: the nonzero values row by row, their column indices, and
/// for each row the span of the value list that holds it.
pub struct CompressedSparseRow {
    values: Vec<i64>,
    column_indices: Vec<usize>,
    row_pointers: Vec<usize>,
    original_cols: usize,
    dense: Ghost<Seq<Seq<i64>>>,
}

impl CompressedSparseRow {
    /// The dense matrix this value represents.
    pub closed spec fn matrix(&self) -> Seq<Seq<i64>> {
        self.dense@
    }

    /// The dense matrix's row count.
    pub open spec fn rows(&self) -> int {
        self.matrix().len() as int
    }

    /// The dense matrix's column count.
    pub closed spec fn cols(&self) -> int {
        self.original_cols as int
    }

    /// The stored form agrees with the dense matrix: one pointer span per row,
    /// chained from zero to the end of the value list, and each row stored
    /// faithfully in its span.
    pub closed spec fn wf(&self) -> bool {
        let rp = self.row_pointers@;
        let d = self.dense@;
        &&& rp.len() == d.len() + 1
        &&& rp[0] == 0
        &&& rp[d.len() as int] == self.values@.len()
        &&& self.column_indices@.len() == self.values@.len()
        &&& forall|q: int| 0 <= q < d.len() ==> (#[trigger] d[q]).len() == self.original_cols
        &&& forall|q: int|
            0 <= q < d.len() ==> #[trigger] row_stored_ok(
                d[q],
                self.original_cols as int,
                self.column_indices@,
                self.values@,
                rp[q] as int,
                rp[q + 1] as int,
            )
    }

    /// Compresses a dense matrix, scanning each row in column order and
    /// keeping the nonzero entries. The matrix must have at least one row, and
    /// rectangular shape; the first row's length is the column count.
    #[verifier::rlimit(80)]
    pub fn new(matrix: Vec<Vec<i64>>) -> (csr: Self)
        requires
            matrix@.len() > 0,
            forall|i: int| 0 <= i < matrix@.len() ==> (#[trigger] matrix@[i])@.len()
                == matrix@[0]@.len(),
        ensures
            csr.wf(),
            csr.matrix() == dense_of(matrix@),
            csr.rows() == matrix@.len(),
            csr.cols() == matrix@[0]@.len(),
    {
        let cols = matrix[0].len();
        let mut values: Vec<i64> = Vec::new();
        let mut column_indices: Vec<usize> = Vec::new();
        let mut row_pointers: Vec<usize> = Vec::new();
        row_pointers.push(0);
        let mut r: usize = 0;
        while r < matrix.len()
            invariant
                r <= matrix@.len(),
                cols == matrix@[0]@.len(),
                forall|i: int| 0 <= i < matrix@.len() ==> (#[trigger] matrix@[i])@.len() == cols,
                row_pointers@.len() == r + 1,
                row_pointers@[0] == 0,
                row_pointers@[r as int] == values@.len(),
                column_indices@.len() == values@.len(),
                forall|q: int|
                    0 <= q < r ==> #[trigger] row_stored_ok(
                        matrix@[q]@,
                        cols as int,
                        column_indices@,
                        values@,
                        row_pointers@[q] as int,
                        row_pointers@[q + 1] as int,
                    ),
            decreases matrix@.len() - r,
        {
            let ghost vstart = values@.len();
            let ghost rp_snap = row_pointers@;
            let row = &matrix[r];
            let mut c: usize = 0;
            while c < row.len()
                invariant
                    c <= row@.len(),
                    row@ == matrix@[r as int]@,
                    r < matrix@.len(),
                    row@.len() == cols,
                    vstart <= values@.len(),
                    column_indices@.len() == values@.len(),
                    row_pointers@ == rp_snap,
                    rp_snap.len() == r + 1,
                    rp_snap[0] == 0,
                    rp_snap[r as int] == vstart,
                    forall|q: int|
                        0 <= q < r ==> #[trigger] row_stored_ok(
                            matrix@[q]@,
                            cols as int,
                            column_indices@,
                            values@,
                            rp_snap[q] as int,
                            rp_snap[q + 1] as int,
                        ),
                    forall|t: int|
                        vstart <= t < values@.len() ==> (#[trigger] column_indices@[t]) < c
                            && row@[column_indices@[t] as int] == values@[t] && values@[t] != 0,
                    forall|c2: int|
                        0 <= c2 < c && (#[trigger] row@[c2]) != 0 ==> exists|t: int|
                            vstart <= t < values@.len() && column_indices@[t] == c2,
                decreases row@.len() - c,
            {
                let ghost ci_prev = column_indices@;
                let ghost vals_prev = values@;
                let val = row[c];
                if val != 0 {
                    values.push(val);
                    column_indices.push(c);
                }
                proof {
                    assert forall|q: int| 0 <= q < r implies #[trigger] row_stored_ok(
                        matrix@[q]@,
                        cols as int,
                        column_indices@,
                        values@,
                        rp_snap[q] as int,
                        rp_snap[q + 1] as int,
                    ) by {
                        assert(row_stored_ok(
                            matrix@[q]@,
                            cols as int,
                            ci_prev,
                            vals_prev,
                            rp_snap[q] as int,
                            rp_snap[q + 1] as int,
                        ));
                        assert(rp_snap[q + 1] <= vals_prev.len());
                        assert(values@.len() >= vals_prev.len());
                        assert(column_indices@.len() == values@.len());
                        lemma_row_ok_stable(
                            matrix@[q]@,
                            cols as int,
                            ci_prev,
                            vals_prev,
                            column_indices@,
                            values@,
                            rp_snap[q] as int,
                            rp_snap[q + 1] as int,
                        );
                    }
                    assert forall|c2: int| 0 <= c2 < c + 1 && (#[trigger] row@[c2]) != 0 implies
                        exists|t: int|
                            vstart <= t < values@.len() && column_indices@[t] == c2 by {
                        if c2 == c {
                            assert(column_indices@[values@.len() - 1] == c2);
                        } else {
                            let t = choose|t: int|
                                vstart <= t < vals_prev.len() && ci_prev[t] == c2;
                            assert(column_indices@[t] == c2);
                        }
                    }
                }
                c = c + 1;
            }
            row_pointers.push(values.len());
            proof {
                assert forall|q: int| 0 <= q < r + 1 implies #[trigger] row_stored_ok(
                    matrix@[q]@,
                    cols as int,
                    column_indices@,
                    values@,
                    row_pointers@[q] as int,
                    row_pointers@[q + 1] as int,
                ) by {
                    if q < r {
                        assert(row_pointers@[q] == rp_snap[q]);
                        assert(row_pointers@[q + 1] == rp_snap[q + 1]);
                    } else {
                        assert(row_pointers@[q] == vstart);
                        assert(row_pointers@[q + 1] == values@.len());
                    }
                }
            }
            r = r + 1;
        }
        let csr = CompressedSparseRow {
            values,
            column_indices,
            row_pointers,
            original_cols: cols,
            dense: Ghost(dense_of(matrix@)),
        };
        proof {
            assert forall|q: int| 0 <= q < csr.dense@.len() implies (#[trigger] csr.dense@[q]).len()
                == cols by {
                assert(csr.dense@[q] == matrix@[q]@);
            }
            assert forall|q: int| 0 <= q < csr.dense@.len() implies #[trigger] row_stored_ok(
                csr.dense@[q],
                cols as int,
                csr.column_indices@,
                csr.values@,
                csr.row_pointers@[q] as int,
                csr.row_pointers@[q + 1] as int,
            ) by {
                assert(csr.dense@[q] == matrix@[q]@);
                assert(row_stored_ok(
                    matrix@[q]@,
                    cols as int,
                    csr.column_indices@,
                    csr.values@,
                    csr.row_pointers@[q] as int,
                    csr.row_pointers@[q + 1] as int,
                ));
            }
        }
        csr
    }

    /// One entry of the dense matrix: the stored value when the row's span
    /// holds the column, and zero otherwise — also for columns beyond the
    /// matrix's width, where nothing is ever stored.
    pub fn get(&self, row: usize, col: usize) -> (v: i64)
        requires
            self.wf(),
            row < self.rows(),
        ensures
            col < self.cols() ==> v == self.matrix()[row as int][col as int],
            col >= self.cols() ==> v == 0,
    {
        let rp_len = self.row_pointers.len();
        proof {
            assert(row + 1 < rp_len);
            assert(row_stored_ok(
                self.matrix()[row as int],
                self.cols(),
                self.column_indices@,
                self.values@,
                self.row_pointers@[row as int] as int,
                self.row_pointers@[row + 1] as int,
            ));
        }
        let start = self.row_pointers[row];
        let end = self.row_pointers[row + 1];
        let mut t = start;
        while t < end
            invariant
                self.wf(),
                row < self.rows(),
                start == self.row_pointers@[row as int],
                end == self.row_pointers@[row + 1],
                end <= self.values@.len(),
                end <= self.column_indices@.len(),
                start <= t <= end,
                row_stored_ok(
                    self.matrix()[row as int],
                    self.cols(),
                    self.column_indices@,
                    self.values@,
                    start as int,
                    end as int,
                ),
                forall|u: int| start <= u < t ==> (#[trigger] self.column_indices@[u]) != col,
            decreases end - t,
        {
            if self.column_indices[t] == col {
                return self.values[t];
            }
            t = t + 1;
        }
        proof {
            if col < self.cols() && self.matrix()[row as int][col as int] != 0 {
                let u = choose|u: int| start <= u < end && self.column_indices@[u] == col;
                assert(self.column_indices@[u] != col);
            }
        }
        0
    }

    /// Rebuilds the dense matrix: rows of zeroes, with each row's span written
    /// back over them.
    pub fn reconstruct(&self) -> (m: Vec<Vec<i64>>)
        requires
            self.wf(),
        ensures
            dense_of(m@) == self.matrix(),
            m@.len() == self.rows(),
    {
        let rows = self.row_pointers.len() - 1;
        let mut result: Vec<Vec<i64>> = Vec::new();
        let mut r: usize = 0;
        while r < rows
            invariant
                self.wf(),
                rows == self.rows(),
                r <= rows,
                result@.len() == r,
                forall|q: int| 0 <= q < r ==> (#[trigger] result@[q])@ == self.matrix()[q],
            decreases rows - r,
        {
            let mut row: Vec<i64> = Vec::new();
            let mut c: usize = 0;
            while c < self.original_cols
                invariant
                    c <= self.cols(),
                    row@.len() == c,
                    forall|c2: int| 0 <= c2 < c ==> (#[trigger] row@[c2]) == 0,
                decreases self.cols() - c,
            {
                row.push(0);
                c = c + 1;
            }
            proof {
                assert(row_stored_ok(
                    self.matrix()[r as int],
                    self.cols(),
                    self.column_indices@,
                    self.values@,
                    self.row_pointers@[r as int] as int,
                    self.row_pointers@[r + 1] as int,
                ));
            }
            let start = self.row_pointers[r];
            let end = self.row_pointers[r + 1];
            let mut t = start;
            while t < end
                invariant
                    self.wf(),
                    rows == self.rows(),
                    r < rows,
                    start == self.row_pointers@[r as int],
                    end == self.row_pointers@[r + 1],
                    end <= self.values@.len(),
                    end <= self.column_indices@.len(),
                    start <= t <= end,
                    row@.len() == self.cols(),
                    row_stored_ok(
                        self.matrix()[r as int],
                        self.cols(),
                        self.column_indices@,
                        self.values@,
                        start as int,
                        end as int,
                    ),
                    forall|c2: int|
                        0 <= c2 < self.cols() && (exists|u: int|
                            start <= u < t && (#[trigger] self.column_indices@[u]) == c2) ==> row@[
                            c2] == self.matrix()[r as int][c2],
                    forall|c2: int|
                        0 <= c2 < self.cols() && !(exists|u: int|
                            start <= u < t && (#[trigger] self.column_indices@[u]) == c2) ==> row@[
                            c2] == 0,
                decreases end - t,
            {
                let c2 = self.column_indices[t];
                let ghost prev = row@;
                row[c2] = self.values[t];
                proof {
                    assert forall|c3: int|
                        0 <= c3 < self.cols() && (exists|u: int|
                            start <= u < t + 1 && (#[trigger] self.column_indices@[u]) == c3)
                        implies row@[c3] == self.matrix()[r as int][c3] by {
                        if c3 == c2 {
                        } else {
                            let u = choose|u: int|
                                start <= u < t + 1 && self.column_indices@[u] == c3;
                            assert(u < t);
                            assert(row@[c3] == prev[c3]);
                        }
                    }
                    assert forall|c3: int|
                        0 <= c3 < self.cols() && !(exists|u: int|
                            start <= u < t + 1 && (#[trigger] self.column_indices@[u]) == c3)
                        implies row@[c3] == 0 by {
                        assert(self.column_indices@[t as int] == c2);
                        assert(c3 != c2);
                        assert(row@[c3] == prev[c3]);
                    }
                }
                t = t + 1;
            }
            proof {
                assert forall|c2: int| 0 <= c2 < self.cols() implies row@[c2] == self.matrix()[
                    r as int][c2] by {
                    if !(exists|u: int|
                        start <= u < end && (#[trigger] self.column_indices@[u]) == c2) {
                        if self.matrix()[r as int][c2] != 0 {
                            let u = choose|u: int|
                                start <= u < end && self.column_indices@[u] == c2;
                            assert(self.column_indices@[u] == c2);
                            assert(false);
                        }
                    }
                }
                assert(row@ =~= self.matrix()[r as int]);
            }
            result.push(row);
            r = r + 1;
        }
        proof {
            assert(dense_of(result@) =~~= self.matrix());
        }
        result
    }
}

} // verus!
