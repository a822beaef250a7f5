//! The algorithms of the library.

pub mod linear_regression;

pub use linear_regression::FitError;
pub use linear_regression::LinearRegression;
