//! Least-squares fitting of a linear-in-parameters regression model.
//!
//! The library approximates a scalar target function of one variable by
//! projecting each input through a caller-supplied feature map and solving
//! the normal equations for the coefficients that minimize squared error.
//! Verus has no model of floating-point arithmetic, so scalars travel
//! through the library as opaque 64-bit words (the IEEE 754 double-precision
//! encoding chosen by the caller); everything structural about fitting is
//! specified and verified here, while the numeric kernel that solves the
//! normal equations is supplied by the caller and trusted only for the
//! values it actually returns.

pub mod algorithm;
