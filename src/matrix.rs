use vstd::prelude::*;

verus! {

/// Why a matrix could not be built, or why a statistic vector does not fit one.
#[derive(Debug, Clone, Copy, PartialEq, Eq, Structural)]
pub enum ShapeError {
    /// The row at this index does not have the declared number of columns.
    RaggedRow { row: usize },
    /// A per-column vector has `found` entries where the matrix has `expected` columns.
    ColumnCount { expected: usize, found: usize },
}

/// A dense two-dimensional matrix: rows are samples, columns are features.
///
/// Every row holds exactly `ncols` entries, so a matrix with no rows still
/// knows its width.
pub struct Matrix<A> {
    rows: Vec<Vec<A>>,
    ncols: usize,
}

/// The rows of `rows`, each seen as a sequence.
pub open spec fn rows_view<A>(rows: Seq<Vec<A>>) -> Seq<Seq<A>> {
    rows.map_values(|r: Vec<A>| r@)
}

/// Every row of `rows` has exactly `ncols` entries.
pub open spec fn all_rows_have_width<A>(rows: Seq<Seq<A>>, ncols: nat) -> bool {
    forall|i: int| 0 <= i < rows.len() ==> #[trigger] rows[i].len() == ncols
}

/// `f` has one outcome per column: equal columns give equal results.
pub open spec fn column_fn_is_function<A, B, F: Fn(&Vec<A>) -> B>(f: F) -> bool {
    forall|c1: &Vec<A>, c2: &Vec<A>, y1: B, y2: B|
        #![trigger f.ensures((c1,), y1), f.ensures((c2,), y2)]
        c1@ == c2@ && f.ensures((c1,), y1) && f.ensures((c2,), y2) ==> y1 == y2
}

/// `f` has one outcome per entry and pair of column statistics.
pub open spec fn entry_fn_is_function<A, S, B, F: Fn(A, S, S) -> B>(f: F) -> bool {
    forall|x: A, s: S, t: S, y1: B, y2: B|
        #![trigger f.ensures((x, s, t), y1), f.ensures((x, s, t), y2)]
        f.ensures((x, s, t), y1) && f.ensures((x, s, t), y2) ==> y1 == y2
}

impl<A> View for Matrix<A> {
    type V = Seq<Seq<A>>;

    closed spec fn view(&self) -> Seq<Seq<A>> {
        rows_view(self.rows@)
    }
}

impl<A> Matrix<A> {
    /// Number of columns (features).
    pub closed spec fn width(&self) -> nat {
        self.ncols as nat
    }

    /// Number of rows (samples).
    pub open spec fn height(&self) -> nat {
        self@.len()
    }

    /// Each row has `width()` entries.
    pub open spec fn wf(&self) -> bool {
        all_rows_have_width(self@, self.width())
    }

    /// The entry at row `i`, column `j`.
    pub open spec fn entry(&self, i: int, j: int) -> A {
        self@[i][j]
    }

    /// Column `j`, read from the first row to the last.
    pub open spec fn column_spec(&self, j: int) -> Seq<A> {
        Seq::new(self.height(), |i: int| self@[i][j])
    }

    /// `other` has the same number of rows and columns as `self`.
    pub open spec fn same_shape<B>(&self, other: &Matrix<B>) -> bool {
        self.height() == other.height() && self.width() == other.width()
    }

    /// `r` has the shape of `self`, and each entry of `r` is an outcome of `f`
    /// on the entry of `self` at the same place.
    pub open spec fn mapped_by<B, F: Fn(A) -> B>(&self, f: F, r: Matrix<B>) -> bool {
        &&& r.wf()
        &&& self.same_shape(&r)
        &&& forall|i: int, j: int|
            0 <= i < self.height() && 0 <= j < self.width() ==> f.ensures(
                (self.entry(i, j),),
                #[trigger] r.entry(i, j),
            )
    }

    /// `r` has the shape of `self`, and each entry of `r` is an outcome of `f`
    /// on the entry of `self` at the same place and the entries of `first`
    /// and `second` for its column.
    pub open spec fn broadcast_by<S, B, F: Fn(A, S, S) -> B>(
        &self,
        first: Seq<S>,
        second: Seq<S>,
        f: F,
        r: Matrix<B>,
    ) -> bool {
        &&& r.wf()
        &&& self.same_shape(&r)
        &&& forall|i: int, j: int|
            0 <= i < self.height() && 0 <= j < self.width() ==> f.ensures(
                (self.entry(i, j), first[j], second[j]),
                #[trigger] r.entry(i, j),
            )
    }

    /// `y` is an outcome of `f` on column `j`.
    pub open spec fn reduced_column<B, F: Fn(&Vec<A>) -> B>(&self, f: F, j: int, y: B) -> bool {
        exists|c: Vec<A>| c@ == self.column_spec(j) && #[trigger] f.ensures((&c,), y)
    }

    /// `r` holds, for each column, an outcome of `f` on that column.
    pub open spec fn reduced_by<B, F: Fn(&Vec<A>) -> B>(&self, f: F, r: Seq<B>) -> bool {
        &&& r.len() == self.width()
        &&& forall|j: int| 0 <= j < self.width() ==> #[trigger] self.reduced_column(f, j, r[j])
    }

    /// Two matrices of the same width with the same rows are the same matrix.
    pub open spec fn same_matrix(&self, other: Matrix<A>) -> bool {
        self@ == other@ && self.width() == other.width()
    }

    /// A column reduction with one outcome per column reduces a matrix in
    /// only one way.
    pub proof fn lemma_reduced_unique<B, F: Fn(&Vec<A>) -> B>(&self, f: F, r1: Seq<B>, r2: Seq<B>)
        requires
            column_fn_is_function(f),
            self.reduced_by(f, r1),
            self.reduced_by(f, r2),
        ensures
            r1 == r2,
    {
        assert forall|j: int| 0 <= j < r1.len() implies r1[j] == r2[j] by {
            assert(self.reduced_column(f, j, r1[j]));
            assert(self.reduced_column(f, j, r2[j]));
            let c1 = choose|c: Vec<A>| c@ == self.column_spec(j) && #[trigger] f.ensures((&c,), r1[j]);
            let c2 = choose|c: Vec<A>| c@ == self.column_spec(j) && #[trigger] f.ensures((&c,), r2[j]);
            assert(f.ensures((&c1,), r1[j]) && f.ensures((&c2,), r2[j]));
        }
        assert(r1 =~= r2);
    }

    /// A formula with one outcome per input broadcasts the same statistics
    /// over a matrix in only one way.
    pub proof fn lemma_broadcast_unique<S, B, F: Fn(A, S, S) -> B>(
        &self,
        first: Seq<S>,
        second: Seq<S>,
        f: F,
        r1: Matrix<B>,
        r2: Matrix<B>,
    )
        requires
            entry_fn_is_function(f),
            self.broadcast_by(first, second, f, r1),
            self.broadcast_by(first, second, f, r2),
        ensures
            r1.same_matrix(r2),
    {
        assert forall|i: int| 0 <= i < r1@.len() implies r1@[i] == r2@[i] by {
            assert forall|j: int| 0 <= j < r1@[i].len() implies r1@[i][j] == r2@[i][j] by {
                assert(f.ensures((self.entry(i, j), first[j], second[j]), r1.entry(i, j)));
                assert(f.ensures((self.entry(i, j), first[j], second[j]), r2.entry(i, j)));
            }
            assert(r1@[i] =~= r2@[i]);
        }
        assert(r1@ =~= r2@);
    }

    /// Builds a matrix of width `ncols` from its rows; fails on the first row
    /// of another length.
    pub fn from_rows(ncols: usize, rows: Vec<Vec<A>>) -> (r: Result<Matrix<A>, ShapeError>)
        ensures
            match r {
                Ok(m) => {
                    &&& all_rows_have_width(rows_view(rows@), ncols as nat)
                    &&& m.wf()
                    &&& m@ == rows_view(rows@)
                    &&& m.width() == ncols
                },
                Err(e) => exists|row: usize|
                    {
                        &&& e == ShapeError::RaggedRow { row }
                        &&& row < rows@.len()
                        &&& rows@[row as int]@.len() != ncols
                        &&& all_rows_have_width(rows_view(rows@).take(row as int), ncols as nat)
                    },
            },
    {
        let mut i: usize = 0;
        while i < rows.len()
            invariant
                i <= rows@.len(),
                all_rows_have_width(rows_view(rows@).take(i as int), ncols as nat),
            decreases rows@.len() - i,
        {
            if rows[i].len() != ncols {
                return Err(ShapeError::RaggedRow { row: i });
            }
            proof {
                let v = rows_view(rows@);
                assert forall|k: int| 0 <= k < v.take(i + 1).len() implies #[trigger] v.take(
                    i + 1,
                )[k].len() == ncols by {
                    if k < i {
                        assert(v.take(i as int)[k] == v.take(i + 1)[k]);
                    }
                }
            }
            i = i + 1;
        }
        proof {
            assert(rows_view(rows@).take(rows@.len() as int) =~= rows_view(rows@));
        }
        Ok(Matrix { rows, ncols })
    }

    /// Hands back the rows.
    pub fn into_rows(self) -> (r: Vec<Vec<A>>)
        ensures
            rows_view(r@) == self@,
    {
        self.rows
    }

    /// Number of rows (samples).
    pub fn nrows(&self) -> (r: usize)
        ensures
            r == self.height(),
    {
        self.rows.len()
    }

    /// Number of columns (features).
    pub fn ncols(&self) -> (r: usize)
        ensures
            r == self.width(),
    {
        self.ncols
    }
}

impl<A: Copy> Matrix<A> {
    /// The entry at row `i`, column `j`.
    pub fn get(&self, i: usize, j: usize) -> (r: A)
        requires
            self.wf(),
            i < self.height(),
            j < self.width(),
        ensures
            r == self.entry(i as int, j as int),
    {
        assert(self@[i as int] == self.rows@[i as int]@);
        self.rows[i][j]
    }

    /// Column `j` as a vector, from the first row to the last.
    pub fn column(&self, j: usize) -> (r: Vec<A>)
        requires
            self.wf(),
            j < self.width(),
        ensures
            r@ == self.column_spec(j as int),
    {
        let mut out: Vec<A> = Vec::new();
        let mut i: usize = 0;
        while i < self.rows.len()
            invariant
                self.wf(),
                j < self.width(),
                i <= self.height(),
                self.height() == self.rows@.len(),
                out@ == self.column_spec(j as int).take(i as int),
            decreases self.height() - i,
        {
            assert(self@[i as int] == self.rows@[i as int]@);
            let x = self.rows[i][j];
            out.push(x);
            i = i + 1;
            assert(out@ =~= self.column_spec(j as int).take(i as int));
        }
        assert(out@ =~= self.column_spec(j as int));
        out
    }

    /// Applies `f` to every entry; the result has the same shape.
    pub fn map<B, F: Fn(A) -> B>(&self, f: F) -> (r: Matrix<B>)
        requires
            self.wf(),
            forall|x: A| #[trigger] f.requires((x,)),
        ensures
            self.mapped_by(f, r),
    {
        let mut out: Vec<Vec<B>> = Vec::new();
        let mut i: usize = 0;
        while i < self.rows.len()
            invariant
                self.wf(),
                forall|x: A| #[trigger] f.requires((x,)),
                i <= self.rows@.len(),
                out@.len() == i,
                forall|k: int| 0 <= k < i ==> #[trigger] out@[k]@.len() == self.width(),
                forall|k: int, j: int|
                    0 <= k < i && 0 <= j < self.width() ==> f.ensures(
                        (self.entry(k, j),),
                        #[trigger] out@[k]@[j],
                    ),
            decreases self.rows@.len() - i,
        {
            let row = &self.rows[i];
            assert(self@[i as int] == row@);
            let mut new_row: Vec<B> = Vec::new();
            let mut j: usize = 0;
            while j < self.ncols
                invariant
                    self.wf(),
                    forall|x: A| #[trigger] f.requires((x,)),
                    i < self.rows@.len(),
                    row@ == self@[i as int],
                    row@.len() == self.width(),
                    j <= self.width(),
                    new_row@.len() == j,
                    forall|k: int|
                        0 <= k < j ==> f.ensures((self.entry(i as int, k),), #[trigger] new_row@[k]),
                decreases self.width() - j,
            {
                let y = f(row[j]);
                new_row.push(y);
                j = j + 1;
            }
            out.push(new_row);
            i = i + 1;
        }
        let r = Matrix { rows: out, ncols: self.ncols };
        assert forall|k: int| 0 <= k < r.height() implies #[trigger] r@[k].len() == r.width() by {
            assert(r@[k] == out@[k]@);
        }
        assert forall|k: int, j: int|
            0 <= k < self.height() && 0 <= j < self.width() implies f.ensures(
            (self.entry(k, j),),
            #[trigger] r.entry(k, j),
        ) by {
            assert(r@[k] == out@[k]@);
        }
        r
    }

    /// Applies `f` to every entry together with the entries of `first` and
    /// `second` for its column. Each vector must have one entry per column.
    pub fn broadcast<S: Copy, B, F: Fn(A, S, S) -> B>(
        &self,
        first: &Vec<S>,
        second: &Vec<S>,
        f: F,
    ) -> (r: Result<Matrix<B>, ShapeError>)
        requires
            self.wf(),
            forall|x: A, s: S, t: S| #[trigger] f.requires((x, s, t)),
        ensures
            match r {
                Ok(m) => {
                    &&& first@.len() == self.width()
                    &&& second@.len() == self.width()
                    &&& self.broadcast_by(first@, second@, f, m)
                },
                Err(e) => if first@.len() != self.width() {
                    e == ShapeError::ColumnCount { expected: self.width() as usize, found: first.len() }
                } else {
                    &&& second@.len() != self.width()
                    &&& e == ShapeError::ColumnCount { expected: self.width() as usize, found: second.len() }
                },
            },
    {
        if first.len() != self.ncols {
            return Err(ShapeError::ColumnCount { expected: self.ncols, found: first.len() });
        }
        if second.len() != self.ncols {
            return Err(ShapeError::ColumnCount { expected: self.ncols, found: second.len() });
        }
        let mut out: Vec<Vec<B>> = Vec::new();
        let mut i: usize = 0;
        while i < self.rows.len()
            invariant
                self.wf(),
                forall|x: A, s: S, t: S| #[trigger] f.requires((x, s, t)),
                first@.len() == self.width(),
                second@.len() == self.width(),
                i <= self.rows@.len(),
                out@.len() == i,
                forall|k: int| 0 <= k < i ==> #[trigger] out@[k]@.len() == self.width(),
                forall|k: int, j: int|
                    0 <= k < i && 0 <= j < self.width() ==> f.ensures(
                        (self.entry(k, j), first@[j], second@[j]),
                        #[trigger] out@[k]@[j],
                    ),
            decreases self.rows@.len() - i,
        {
            let row = &self.rows[i];
            assert(self@[i as int] == row@);
            let mut new_row: Vec<B> = Vec::new();
            let mut j: usize = 0;
            while j < self.ncols
                invariant
                    self.wf(),
                    forall|x: A, s: S, t: S| #[trigger] f.requires((x, s, t)),
                    first@.len() == self.width(),
                    second@.len() == self.width(),
                    i < self.rows@.len(),
                    row@ == self@[i as int],
                    row@.len() == self.width(),
                    j <= self.width(),
                    new_row@.len() == j,
                    forall|k: int|
                        0 <= k < j ==> f.ensures(
                            (self.entry(i as int, k), first@[k], second@[k]),
                            #[trigger] new_row@[k],
                        ),
                decreases self.width() - j,
            {
                let y = f(row[j], first[j], second[j]);
                new_row.push(y);
                j = j + 1;
            }
            out.push(new_row);
            i = i + 1;
        }
        let r = Matrix { rows: out, ncols: self.ncols };
        assert forall|k: int| 0 <= k < r.height() implies #[trigger] r@[k].len() == r.width() by {
            assert(r@[k] == out@[k]@);
        }
        assert forall|k: int, j: int|
            0 <= k < self.height() && 0 <= j < self.width() implies f.ensures(
            (self.entry(k, j), first@[j], second@[j]),
            #[trigger] r.entry(k, j),
        ) by {
            assert(r@[k] == out@[k]@);
        }
        Ok(r)
    }

    /// Applies `f` to each column in turn: one result per column.
    pub fn reduce_columns<B, F: Fn(&Vec<A>) -> B>(&self, f: F) -> (r: Vec<B>)
        requires
            self.wf(),
            forall|c: &Vec<A>| #[trigger] f.requires((c,)),
        ensures
            self.reduced_by(f, r@),
    {
        let mut out: Vec<B> = Vec::new();
        let mut j: usize = 0;
        while j < self.ncols
            invariant
                self.wf(),
                forall|c: &Vec<A>| #[trigger] f.requires((c,)),
                j <= self.width(),
                out@.len() == j,
                forall|k: int| 0 <= k < j ==> #[trigger] self.reduced_column(f, k, out@[k]),
            decreases self.width() - j,
        {
            let c = self.column(j);
            let y = f(&c);
            assert(self.reduced_column(f, j as int, y));
            out.push(y);
            j = j + 1;
        }
        out
    }
}

} // verus!
