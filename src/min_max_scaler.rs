use vstd::prelude::*;

use crate::matrix::{column_fn_is_function, entry_fn_is_function, Matrix, ShapeError};

verus! {

/// Fitted state for min-max scaling: the smallest and largest value of each
/// column of the matrix it was fit on.
///
/// The element type and its arithmetic are the caller's: `fit` takes the
/// column reductions, `transform` the per-entry rescaling formula.
pub struct MinMaxScaler<A> {
    min: Vec<A>,
    max: Vec<A>,
}

impl<A> MinMaxScaler<A> {
    /// Per-column minima.
    pub closed spec fn spec_min(&self) -> Seq<A> {
        self.min@
    }

    /// Per-column maxima.
    pub closed spec fn spec_max(&self) -> Seq<A> {
        self.max@
    }

    /// `self` holds, for each column of `obs`, an outcome of `col_min` and of
    /// `col_max` on that column.
    pub open spec fn fitted_on<F: Fn(&Vec<A>) -> A, G: Fn(&Vec<A>) -> A>(
        &self,
        obs: Matrix<A>,
        col_min: F,
        col_max: G,
    ) -> bool {
        &&& obs.reduced_by(col_min, self.spec_min())
        &&& obs.reduced_by(col_max, self.spec_max())
    }

    /// Per-column minima.
    pub fn min(&self) -> (r: &Vec<A>)
        ensures
            r@ == self.spec_min(),
    {
        &self.min
    }

    /// Per-column maxima.
    pub fn max(&self) -> (r: &Vec<A>)
        ensures
            r@ == self.spec_max(),
    {
        &self.max
    }
}

impl<A: Copy> MinMaxScaler<A> {
    /// Fits to the columns of `obs`: `col_min` and `col_max` reduce one
    /// column to its smallest and largest value.
    pub fn fit<F: Fn(&Vec<A>) -> A, G: Fn(&Vec<A>) -> A>(obs: &Matrix<A>, col_min: F, col_max: G) -> (r:
        MinMaxScaler<A>)
        requires
            obs.wf(),
            forall|c: &Vec<A>| #[trigger] col_min.requires((c,)),
            forall|c: &Vec<A>| #[trigger] col_max.requires((c,)),
        ensures
            r.fitted_on(*obs, col_min, col_max),
    {
        let min = obs.reduce_columns(col_min);
        let max = obs.reduce_columns(col_max);
        MinMaxScaler { min, max }
    }

    /// Rescales each entry `x` of `obs` with `scale(x, min, max)`, where
    /// `min` and `max` are the fitted values of its column. `obs` must have
    /// as many columns as the matrix that was fit.
    pub fn transform<F: Fn(A, A, A) -> A>(&self, obs: &Matrix<A>, scale: F) -> (r: Result<
        Matrix<A>,
        ShapeError,
    >)
        requires
            obs.wf(),
            self.spec_min().len() == self.spec_max().len(),
            forall|x: A, lo: A, hi: A| #[trigger] scale.requires((x, lo, hi)),
        ensures
            match r {
                Ok(m) => {
                    &&& obs.width() == self.spec_min().len()
                    &&& obs.broadcast_by(self.spec_min(), self.spec_max(), scale, m)
                },
                Err(e) => {
                    &&& obs.width() != self.spec_min().len()
                    &&& e == ShapeError::ColumnCount {
                        expected: obs.width() as usize,
                        found: self.spec_min().len() as usize,
                    }
                },
            },
    {
        obs.broadcast(&self.min, &self.max, scale)
    }

    /// Fits to `obs` and rescales `obs` with the fitted values: the same as
    /// `fit` followed by `transform` on the same matrix.
    pub fn fit_transform<F: Fn(&Vec<A>) -> A, G: Fn(&Vec<A>) -> A, H: Fn(A, A, A) -> A>(
        obs: &Matrix<A>,
        col_min: F,
        col_max: G,
        scale: H,
    ) -> (r: Matrix<A>)
        requires
            obs.wf(),
            forall|c: &Vec<A>| #[trigger] col_min.requires((c,)),
            forall|c: &Vec<A>| #[trigger] col_max.requires((c,)),
            forall|x: A, lo: A, hi: A| #[trigger] scale.requires((x, lo, hi)),
        ensures
            exists|s: MinMaxScaler<A>|
                #[trigger] s.fitted_on(*obs, col_min, col_max) && obs.broadcast_by(
                    s.spec_min(),
                    s.spec_max(),
                    scale,
                    r,
                ),
    {
        let fitted = Self::fit(obs, col_min, col_max);
        let r = fitted.transform(obs, scale);
        match r {
            Ok(m) => m,
            Err(_) => {
                assert(false);
                obs.map(|x: A| x)
            },
        }
    }
}

/// Fitting and transforming in one step gives exactly the matrix that
/// fitting, then transforming the same matrix, gives, provided the column
/// reductions and the rescaling formula have one outcome per input.
pub proof fn lemma_fit_transform_is_fit_then_transform<
    A,
    F: Fn(&Vec<A>) -> A,
    G: Fn(&Vec<A>) -> A,
    H: Fn(A, A, A) -> A,
>(
    obs: Matrix<A>,
    col_min: F,
    col_max: G,
    scale: H,
    one_step: Matrix<A>,
    fitted: MinMaxScaler<A>,
    two_steps: Matrix<A>,
)
    requires
        column_fn_is_function(col_min),
        column_fn_is_function(col_max),
        entry_fn_is_function(scale),
        exists|s: MinMaxScaler<A>|
            #[trigger] s.fitted_on(obs, col_min, col_max) && obs.broadcast_by(
                s.spec_min(),
                s.spec_max(),
                scale,
                one_step,
            ),
        fitted.fitted_on(obs, col_min, col_max),
        obs.broadcast_by(fitted.spec_min(), fitted.spec_max(), scale, two_steps),
    ensures
        one_step.same_matrix(two_steps),
{
    let s = choose|s: MinMaxScaler<A>|
        #[trigger] s.fitted_on(obs, col_min, col_max) && obs.broadcast_by(
            s.spec_min(),
            s.spec_max(),
            scale,
            one_step,
        );
    obs.lemma_reduced_unique(col_min, s.spec_min(), fitted.spec_min());
    obs.lemma_reduced_unique(col_max, s.spec_max(), fitted.spec_max());
    obs.lemma_broadcast_unique(fitted.spec_min(), fitted.spec_max(), scale, one_step, two_steps);
}

} // verus!
