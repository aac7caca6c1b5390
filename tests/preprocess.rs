use linfa_preprocessing::{Matrix, MinMaxScaler, Preprocess, StandardScaler};
use ndarray::ArrayView1;
use ndarray_stats::QuantileExt;

struct Data(Matrix<f64>);

fn data(ncols: usize, rows: Vec<Vec<f64>>) -> Data {
    Data(Matrix::from_rows(ncols, rows).unwrap())
}

fn col_min(c: &Vec<f64>) -> f64 {
    *ArrayView1::from(c.as_slice()).min_skipnan()
}

fn col_max(c: &Vec<f64>) -> f64 {
    *ArrayView1::from(c.as_slice()).max_skipnan()
}

fn col_mean(c: &Vec<f64>) -> f64 {
    ArrayView1::from(c.as_slice()).mean().unwrap_or(f64::NAN)
}

fn col_std(c: &Vec<f64>) -> f64 {
    if c.is_empty() {
        return f64::NAN;
    }
    ArrayView1::from(c.as_slice()).std(1.)
}

impl Preprocess<f64> for Data {
    fn standard_scale(self) -> Self {
        let standardize = |x: f64, mean: f64, std: f64| (x - mean) / std;
        let never_zero = |_: f64| false;
        let scaled = StandardScaler::fit_transform(&self.0, col_mean, col_std, never_zero, standardize);
        Data(scaled.expect("a zero test that never fires rejects no column"))
    }

    fn min_max_scale(self) -> Self {
        let scale = |x: f64, lo: f64, hi: f64| (x - lo) / (hi - lo);
        Data(MinMaxScaler::fit_transform(&self.0, col_min, col_max, scale))
    }

    fn custom_scale(self, min: f64, max: f64) -> Self {
        let scale = move |x: f64, lo: f64, hi: f64| ((x - lo) / (hi - lo)) * (max - min) + min;
        Data(MinMaxScaler::fit_transform(&self.0, col_min, col_max, scale))
    }

    fn binarize(self, threshold: f64) -> Self {
        Data(self.0.map(move |x: f64| if x < threshold { 0. } else { 1. }))
    }
}

fn rows(d: Data) -> Vec<Vec<f64>> {
    d.0.into_rows()
}

fn assert_rows_close(actual: Data, expected: Vec<Vec<f64>>, eps: f64) {
    let actual = rows(actual);
    assert_eq!(actual.len(), expected.len());
    for (a, e) in actual.iter().zip(&expected) {
        assert_eq!(a.len(), e.len());
        for (x, y) in a.iter().zip(e) {
            assert!((x - y).abs() <= eps, "{} is not within {} of {}", x, eps, y);
        }
    }
}

fn sample() -> Data {
    data(2, vec![vec![-1., 2.], vec![-0.5, 6.], vec![0., 10.], vec![1., 18.]])
}

#[test]
fn standard_scale() {
    let data = data(3, vec![vec![1., 3., 2.], vec![0., 0., 1.], vec![2., 0., 3.]]);
    let standard_scaled = data.standard_scale();
    let expected_scaled = vec![
        vec![0., 1.154700538379, 0.],
        vec![-1., -0.57735026919, -1.],
        vec![1., -0.57735026919, 1.],
    ];
    assert_rows_close(standard_scaled, expected_scaled, 1e-5);
}

#[test]
fn min_max_scale() {
    let min_max_scaled = sample().min_max_scale();
    let expected_scaled = vec![vec![0., 0.], vec![0.25, 0.25], vec![0.5, 0.5], vec![1., 1.]];
    assert_eq!(rows(min_max_scaled), expected_scaled);
}

#[test]
fn custom_scale() {
    let custom_scaled = sample().custom_scale(-3., 5.);
    let expected_scaled = vec![vec![-3., -3.], vec![-1., -1.], vec![1., 1.], vec![5., 5.]];
    assert_eq!(rows(custom_scaled), expected_scaled);
}

#[test]
fn binarize() {
    let binarized = sample().binarize(0.);
    let expected_binarized = vec![vec![0., 1.], vec![0., 1.], vec![1., 1.], vec![1., 1.]];
    assert_eq!(rows(binarized), expected_binarized);
}

#[test]
fn binarize_nan() {
    let d = data(2, vec![vec![-1., f64::NAN], vec![f64::NAN, 6.], vec![0., 10.], vec![1., 18.]]);
    let binarized = d.binarize(10.);
    let expected_binarized = vec![vec![0., 1.], vec![1., 0.], vec![0., 1.], vec![0., 1.]];
    assert_eq!(rows(binarized), expected_binarized);
}

#[test]
fn binarize_single_nan_is_one() {
    for threshold in [-1e9, -1., 0., 0.5, 1e9] {
        assert_eq!(rows(data(1, vec![vec![f64::NAN]]).binarize(threshold)), vec![vec![1.]]);
    }
}

#[test]
fn composable_min_std() {
    let min_max_std_scaled = sample().min_max_scale().standard_scale();
    let expected_scaled = vec![
        vec![-1.024695, -1.024695],
        vec![-0.439155, -0.439155],
        vec![0.146385, 0.146385],
        vec![1.317465, 1.317465],
    ];
    assert_rows_close(min_max_std_scaled, expected_scaled, 1e-5);
}

#[test]
fn composable_min_std_bin() {
    let min_max_std_scaled = sample().min_max_scale().standard_scale().binarize(0.);
    let expected_scaled = vec![vec![0., 0.], vec![0., 0.], vec![1., 1.], vec![1., 1.]];
    assert_eq!(rows(min_max_std_scaled), expected_scaled);
}

#[test]
fn readme_example() {
    let processed = sample().min_max_scale().standard_scale().binarize(0.);
    let expected = vec![vec![0., 0.], vec![0., 0.], vec![1., 1.], vec![1., 1.]];
    assert_eq!(rows(processed), expected)
}

#[test]
fn standard_scale_does_not_refuse_constant_column() {
    let out = rows(data(2, vec![vec![1., 4.], vec![3., 4.]]).standard_scale());
    assert!(out[0][1].is_nan());
    assert!(out[1][1].is_nan());
    assert!((out[0][0] + 0.70710678).abs() < 1e-6);
}

#[test]
fn every_transform_keeps_shape() {
    let shape = |d: &Data| (d.0.nrows(), d.0.ncols());
    assert_eq!(shape(&sample().min_max_scale()), (4, 2));
    assert_eq!(shape(&sample().standard_scale()), (4, 2));
    assert_eq!(shape(&sample().custom_scale(2., 3.)), (4, 2));
    assert_eq!(shape(&sample().binarize(0.5)), (4, 2));
}
