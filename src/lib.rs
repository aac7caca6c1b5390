//! Feature preprocessing on dense matrices: min-max scaling, standard
//! scaling, custom-range scaling and binarization.
//!
//! The library owns the matrix shape, the per-column statistics of a fitted
//! scaler and the broadcasting of those statistics over a matrix. The element
//! type is generic: the column reductions and per-entry formulas are handed
//! in as closures, and each result is stated over what those closures promise.

pub mod matrix;
pub mod min_max_scaler;
pub mod preprocess;
pub mod standard_scaler;

pub use matrix::{Matrix, ShapeError};
pub use min_max_scaler::MinMaxScaler;
pub use preprocess::Preprocess;
pub use standard_scaler::{StandardScaler, ZeroVarianceError};
