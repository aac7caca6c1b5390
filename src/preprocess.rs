use vstd::prelude::*;

verus! {

/// Column-wise preprocessing of a whole matrix of features, each method
/// consuming the matrix and returning the transformed one of the same shape.
pub trait Preprocess<A>: Sized {
    /// Standardizes each feature: `(x - mean) / std`, with the sample mean
    /// and sample standard deviation of its column.
    fn standard_scale(self) -> Self;

    /// Rescales each feature into `[0, 1]`: `(x - min) / (max - min)`, with
    /// the NaN-skipping minimum and maximum of its column.
    fn min_max_scale(self) -> Self;

    /// Rescales each feature into `[min, max]`.
    fn custom_scale(self, min: A, max: A) -> Self;

    /// Maps each value to zero if it is below `threshold`, else to one.
    fn binarize(self, threshold: A) -> Self;
}

} // verus!
