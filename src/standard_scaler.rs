use vstd::prelude::*;

use crate::matrix::{column_fn_is_function, entry_fn_is_function, Matrix, ShapeError};

verus! {

/// A standard scaler could not be fit: these columns have a standard
/// deviation of zero, so dividing by it is undefined.
#[derive(Debug, Clone, PartialEq, Eq)]
pub struct ZeroVarianceError {
    columns: Vec<usize>,
}

impl ZeroVarianceError {
    /// The offending columns, in increasing order.
    pub closed spec fn spec_columns(&self) -> Seq<usize> {
        self.columns@
    }

    /// The offending columns, in increasing order.
    pub fn columns(&self) -> (r: &Vec<usize>)
        ensures
            r@ == self.spec_columns(),
    {
        &self.columns
    }
}

/// `cols` lists, in increasing order, exactly the positions of `stds` at
/// which `is_zero` answered `true`.
pub open spec fn zero_columns_of<A, Z: Fn(A) -> bool>(stds: Seq<A>, is_zero: Z, cols: Seq<usize>) -> bool {
    &&& forall|a: int, b: int| 0 <= a < b < cols.len() ==> cols[a] < cols[b]
    &&& forall|k: int|
        0 <= k < cols.len() ==> #[trigger] cols[k] < stds.len() && is_zero.ensures(
            (stds[cols[k] as int],),
            true,
        )
    &&& forall|j: int|
        0 <= j < stds.len() && !cols.contains(j as usize) ==> is_zero.ensures(
            (#[trigger] stds[j],),
            false,
        )
}

/// Fitted state for standard scaling: the mean and the sample standard
/// deviation of each column of the matrix it was fit on, none of the latter
/// zero.
///
/// The element type and its arithmetic are the caller's: `fit` takes the
/// column reductions and the zero test, `transform` the per-entry formula.
pub struct StandardScaler<A> {
    means: Vec<A>,
    stds: Vec<A>,
}

impl<A> StandardScaler<A> {
    /// Per-column means.
    pub closed spec fn spec_means(&self) -> Seq<A> {
        self.means@
    }

    /// Per-column sample standard deviations.
    pub closed spec fn spec_stds(&self) -> Seq<A> {
        self.stds@
    }

    /// `self` holds, for each column of `obs`, an outcome of `col_mean` and of
    /// `col_std` on that column, and `is_zero` said `false` of every
    /// standard deviation.
    pub open spec fn fitted_on<M: Fn(&Vec<A>) -> A, D: Fn(&Vec<A>) -> A, Z: Fn(A) -> bool>(
        &self,
        obs: Matrix<A>,
        col_mean: M,
        col_std: D,
        is_zero: Z,
    ) -> bool {
        &&& obs.reduced_by(col_mean, self.spec_means())
        &&& obs.reduced_by(col_std, self.spec_stds())
        &&& zero_columns_of(self.spec_stds(), is_zero, Seq::empty())
    }

    /// `e` names exactly the columns of `obs` whose standard deviation, an
    /// outcome of `col_std`, `is_zero` said `true` of; there is at least one.
    pub open spec fn rejected_on<D: Fn(&Vec<A>) -> A, Z: Fn(A) -> bool>(
        obs: Matrix<A>,
        col_std: D,
        is_zero: Z,
        e: ZeroVarianceError,
    ) -> bool {
        &&& e.spec_columns().len() > 0
        &&& exists|stds: Seq<A>|
            #[trigger] obs.reduced_by(col_std, stds) && zero_columns_of(
                stds,
                is_zero,
                e.spec_columns(),
            )
    }

    /// Per-column means.
    pub fn means(&self) -> (r: &Vec<A>)
        ensures
            r@ == self.spec_means(),
    {
        &self.means
    }

    /// Per-column sample standard deviations.
    pub fn stds(&self) -> (r: &Vec<A>)
        ensures
            r@ == self.spec_stds(),
    {
        &self.stds
    }
}

impl<A: Copy> StandardScaler<A> {
    /// Fits to the columns of `obs`: `col_mean` and `col_std` reduce one
    /// column to its mean and sample standard deviation, and `is_zero` tells
    /// a zero deviation. Fails, naming every such column, if there is one.
    pub fn fit<M: Fn(&Vec<A>) -> A, D: Fn(&Vec<A>) -> A, Z: Fn(A) -> bool>(
        obs: &Matrix<A>,
        col_mean: M,
        col_std: D,
        is_zero: Z,
    ) -> (r: Result<StandardScaler<A>, ZeroVarianceError>)
        requires
            obs.wf(),
            forall|c: &Vec<A>| #[trigger] col_mean.requires((c,)),
            forall|c: &Vec<A>| #[trigger] col_std.requires((c,)),
            forall|x: A| #[trigger] is_zero.requires((x,)),
        ensures
            match r {
                Ok(s) => s.fitted_on(*obs, col_mean, col_std, is_zero),
                Err(e) => Self::rejected_on(*obs, col_std, is_zero, e),
            },
    {
        let stds = obs.reduce_columns(col_std);
        let mut columns: Vec<usize> = Vec::new();
        let mut j: usize = 0;
        while j < stds.len()
            invariant
                forall|x: A| #[trigger] is_zero.requires((x,)),
                j <= stds@.len(),
                forall|a: int, b: int|
                    0 <= a < b < columns@.len() ==> columns@[a] < columns@[b],
                forall|k: int|
                    0 <= k < columns@.len() ==> #[trigger] columns@[k] < j && is_zero.ensures(
                        (stds@[columns@[k] as int],),
                        true,
                    ),
                forall|k: int|
                    0 <= k < j && !columns@.contains(k as usize) ==> is_zero.ensures(
                        (#[trigger] stds@[k],),
                        false,
                    ),
            decreases stds@.len() - j,
        {
            let zero = is_zero(stds[j]);
            let ghost before = columns@;
            if zero {
                columns.push(j);
                assert forall|k: int|
                    0 <= k < j + 1 && !columns@.contains(k as usize) implies is_zero.ensures(
                    (#[trigger] stds@[k],),
                    false,
                ) by {
                    assert(columns@[before.len() as int] == j);
                    if before.contains(k as usize) {
                        let t = choose|t: int| 0 <= t < before.len() && before[t] == k as usize;
                        assert(columns@[t] == k as usize);
                    }
                }
            } else {
                assert forall|k: int|
                    0 <= k < j + 1 && !columns@.contains(k as usize) implies is_zero.ensures(
                    (#[trigger] stds@[k],),
                    false,
                ) by {
                    if k < j {
                    } else {
                        assert(k == j);
                    }
                }
            }
            j = j + 1;
        }
        if columns.len() > 0 {
            return Err(ZeroVarianceError { columns });
        }
        let means = obs.reduce_columns(col_mean);
        Ok(StandardScaler { means, stds })
    }

    /// Standardizes each entry `x` of `obs` with `standardize(x, mean, std)`,
    /// where `mean` and `std` are the fitted values of its column. `obs` must
    /// have as many columns as the matrix that was fit.
    pub fn transform<F: Fn(A, A, A) -> A>(&self, obs: &Matrix<A>, standardize: F) -> (r: Result<
        Matrix<A>,
        ShapeError,
    >)
        requires
            obs.wf(),
            self.spec_means().len() == self.spec_stds().len(),
            forall|x: A, m: A, s: A| #[trigger] standardize.requires((x, m, s)),
        ensures
            match r {
                Ok(m) => {
                    &&& obs.width() == self.spec_means().len()
                    &&& obs.broadcast_by(self.spec_means(), self.spec_stds(), standardize, m)
                },
                Err(e) => {
                    &&& obs.width() != self.spec_means().len()
                    &&& e == ShapeError::ColumnCount {
                        expected: obs.width() as usize,
                        found: self.spec_means().len() as usize,
                    }
                },
            },
    {
        obs.broadcast(&self.means, &self.stds, standardize)
    }

    /// Fits to `obs` and standardizes `obs` with the fitted values: the same
    /// as `fit` followed by `transform` on the same matrix, failing as `fit`
    /// does.
    pub fn fit_transform<
        M: Fn(&Vec<A>) -> A,
        D: Fn(&Vec<A>) -> A,
        Z: Fn(A) -> bool,
        F: Fn(A, A, A) -> A,
    >(obs: &Matrix<A>, col_mean: M, col_std: D, is_zero: Z, standardize: F) -> (r: Result<
        Matrix<A>,
        ZeroVarianceError,
    >)
        requires
            obs.wf(),
            forall|c: &Vec<A>| #[trigger] col_mean.requires((c,)),
            forall|c: &Vec<A>| #[trigger] col_std.requires((c,)),
            forall|x: A| #[trigger] is_zero.requires((x,)),
            forall|x: A, m: A, s: A| #[trigger] standardize.requires((x, m, s)),
        ensures
            match r {
                Ok(m) => exists|s: StandardScaler<A>|
                    #[trigger] s.fitted_on(*obs, col_mean, col_std, is_zero) && obs.broadcast_by(
                        s.spec_means(),
                        s.spec_stds(),
                        standardize,
                        m,
                    ),
                Err(e) => Self::rejected_on(*obs, col_std, is_zero, e),
            },
    {
        let fitted = Self::fit(obs, col_mean, col_std, is_zero);
        match fitted {
            Ok(s) => match s.transform(obs, standardize) {
                Ok(m) => Ok(m),
                Err(_) => {
                    assert(false);
                    Ok(obs.map(|x: A| x))
                },
            },
            Err(e) => Err(e),
        }
    }
}

/// Fitting and standardizing in one step gives exactly the matrix that
/// fitting, then transforming the same matrix, gives, provided the column
/// reductions and the formula have one outcome per input.
pub proof fn lemma_fit_transform_is_fit_then_transform<
    A,
    M: Fn(&Vec<A>) -> A,
    D: Fn(&Vec<A>) -> A,
    Z: Fn(A) -> bool,
    F: Fn(A, A, A) -> A,
>(
    obs: Matrix<A>,
    col_mean: M,
    col_std: D,
    is_zero: Z,
    standardize: F,
    one_step: Matrix<A>,
    fitted: StandardScaler<A>,
    two_steps: Matrix<A>,
)
    requires
        column_fn_is_function(col_mean),
        column_fn_is_function(col_std),
        entry_fn_is_function(standardize),
        exists|s: StandardScaler<A>|
            #[trigger] s.fitted_on(obs, col_mean, col_std, is_zero) && obs.broadcast_by(
                s.spec_means(),
                s.spec_stds(),
                standardize,
                one_step,
            ),
        fitted.fitted_on(obs, col_mean, col_std, is_zero),
        obs.broadcast_by(fitted.spec_means(), fitted.spec_stds(), standardize, two_steps),
    ensures
        one_step.same_matrix(two_steps),
{
    let s = choose|s: StandardScaler<A>|
        #[trigger] s.fitted_on(obs, col_mean, col_std, is_zero) && obs.broadcast_by(
            s.spec_means(),
            s.spec_stds(),
            standardize,
            one_step,
        );
    obs.lemma_reduced_unique(col_mean, s.spec_means(), fitted.spec_means());
    obs.lemma_reduced_unique(col_std, s.spec_stds(), fitted.spec_stds());
    obs.lemma_broadcast_unique(
        fitted.spec_means(),
        fitted.spec_stds(),
        standardize,
        one_step,
        two_steps,
    );
}

} // verus!
