//! Ordinary least-squares fitting of a linear-in-parameters model.
//!
//! A model is fitted by building a design matrix from the input samples and
//! a caller-supplied feature map, and solving the normal-equations system
//! for the coefficient vector; prediction re-evaluates the fitted model on
//! the stored design matrix.
//!
//! Verus does not reason about floating-point arithmetic, so every scalar is
//! carried as an opaque 64-bit word: the IEEE 754 double-precision encoding
//! chosen by the caller. The module never interprets those words; it only
//! places them. What is verified here is the structural half of the fitting
//! routine: input validation and the error discipline, the shape and content
//! of the design matrix, the invariants of a fitted model, and the walk of
//! the design matrix during prediction. The numeric kernels — the solver of
//! the normal equations for `fit`, the scalar dot product for `predict` —
//! are passed in by the caller as closures, and the contracts state exactly
//! which of their outcomes are accepted and how each one is reflected in
//! the result.

use vstd::prelude::*;

verus! {

/// The 64-bit encoding of the real number one. Every design-matrix row
/// starts with this word: the constant intercept column.
pub const ONE_BITS: u64 = 0x3FF0000000000000;

/// The 64-bit encoding of a quiet not-a-number. The feature map is invoked
/// once on this sentinel, purely to discover how many features it produces;
/// only the length of that output is ever read, never its content.
pub const PROBE_BITS: u64 = 0x7FF8000000000000;

/// Why a fit attempt produced no model.
#[derive(Clone, Copy, Debug, PartialEq, Eq, Structural)]
pub enum FitError {
    /// The sample and target vectors differ in length, or the feature map
    /// did not produce the same number of features for every sample.
    DimensionMismatch,
    /// The normal-equations system admitted no acceptable solution: the
    /// solver reported failure (a singular or ill-conditioned system), or
    /// handed back a vector that is no coefficient assignment for the
    /// design matrix. An empty observation set is always underdetermined
    /// and is rejected the same way.
    SolveError,
}

/// The matrix that a vector of rows stands for: the sequence of row views.
pub open spec fn matrix_view(rows: Seq<Vec<u64>>) -> Seq<Seq<u64>> {
    Seq::new(rows.len(), |i: int| rows[i]@)
}

/// A design-matrix row: the intercept entry followed by the features of one
/// sample.
pub open spec fn design_row(features: Seq<u64>) -> Seq<u64> {
    seq![ONE_BITS].add(features)
}

/// `row` pairs the intercept with one output that the feature map `f` can
/// produce on the sample `xi`.
pub open spec fn row_matches_feature<F: Fn(u64) -> Vec<u64>>(f: F, xi: u64, row: Seq<u64>) -> bool {
    exists|feats: Vec<u64>| call_ensures(f, (xi,), feats) && row == design_row(feats@)
}

/// Each row of `phi` pairs the intercept with one output of the feature map
/// `f` on the corresponding sample of `x`, in sample order.
pub open spec fn rows_match_features<F: Fn(u64) -> Vec<u64>>(
    f: F,
    x: Seq<u64>,
    phi: Seq<Seq<u64>>,
) -> bool {
    &&& phi.len() == x.len()
    &&& (forall|i: int| 0 <= i < x.len() ==> row_matches_feature(f, x[i], #[trigger] phi[i]))
}

/// `y` is a value the dot kernel `dot` can produce on exactly this design
/// row and this coefficient vector.
pub open spec fn prediction_entry<D: Fn(Vec<u64>, Vec<u64>) -> u64>(
    dot: D,
    row: Seq<u64>,
    coeffs: Seq<u64>,
    y: u64,
) -> bool {
    exists|a: Vec<u64>, b: Vec<u64>| a@ == row && b@ == coeffs && call_ensures(dot, (a, b), y)
}

/// Entry i of `r` is an output of the dot kernel `dot` on row i of `design`
/// and on `coeffs`: the predictions align positionally with the rows, one
/// per observation.
pub open spec fn predictions_match<D: Fn(Vec<u64>, Vec<u64>) -> u64>(
    dot: D,
    design: Seq<Seq<u64>>,
    coeffs: Seq<u64>,
    r: Seq<u64>,
) -> bool {
    &&& r.len() == design.len()
    &&& (forall|i: int|
        0 <= i < design.len() ==> prediction_entry(dot, design[i], coeffs, #[trigger] r[i]))
}

/// A solver outcome that cannot be accepted as a coefficient vector for a
/// design matrix with `cols` columns.
pub open spec fn rejected_solution(outcome: Option<Vec<u64>>, cols: nat) -> bool {
    match outcome {
        None => true,
        Some(w) => w@.len() != cols,
    }
}

/// A fitted model: the least-squares coefficient vector together with the
/// design matrix it was solved against. Both are fixed when the model is
/// produced and never change afterwards; a failed fit yields no model at
/// all.
pub struct LinearRegression {
    coefficients: Vec<u64>,
    phi_x: Vec<Vec<u64>>,
}

impl LinearRegression {
    /// The coefficient vector, one entry per design-matrix column.
    pub closed spec fn coeffs(self) -> Seq<u64> {
        self.coefficients@
    }

    /// The design matrix, one inner sequence per observation.
    pub closed spec fn design(self) -> Seq<Seq<u64>> {
        matrix_view(self.phi_x@)
    }

    /// The number of observations the model was fitted on.
    pub open spec fn rows(self) -> nat {
        self.design().len()
    }

    /// The number of design-matrix columns: one intercept column plus one
    /// column per feature.
    pub open spec fn cols(self) -> nat {
        self.coeffs().len()
    }

    /// Structural soundness of a fitted model: at least one observation, a
    /// rectangular design matrix whose first column is the intercept, and
    /// exactly one coefficient per column.
    pub open spec fn wf(self) -> bool {
        &&& self.rows() >= 1
        &&& self.cols() >= 1
        &&& (forall|i: int|
            0 <= i < self.rows() ==> (#[trigger] self.design()[i]).len() == self.cols())
        &&& (forall|i: int| 0 <= i < self.rows() ==> (#[trigger] self.design()[i])[0] == ONE_BITS)
    }

    /// Fit a model to the observation set by ordinary least squares.
    ///
    /// `x` holds the sample inputs and `t` the targets, positionally
    /// aligned. `f` is the feature map: a pure scalar-to-vector mapping
    /// that must produce the same number of features for every input; it
    /// is probed once on `PROBE_BITS` only to learn that number. `solver`
    /// is the numeric kernel: handed the design matrix and the targets, it
    /// either returns a coefficient vector for the normal equations or
    /// reports failure with `None`. The contract does not trust the solver:
    /// it only records which call produced the coefficients, and rejects
    /// any outcome that is not a vector of one coefficient per column.
    ///
    /// Mismatched input lengths and a feature map of inconsistent arity are
    /// rejected with `DimensionMismatch`; an empty observation set, a
    /// solver failure and a malformed solver result are rejected with
    /// `SolveError`.
    pub fn fit<F, S>(x: &Vec<u64>, t: &Vec<u64>, f: F, solver: S) -> (r: Result<
        LinearRegression,
        FitError,
    >)
        where
            F: Fn(u64) -> Vec<u64>,
            S: FnOnce(Vec<Vec<u64>>, Vec<u64>) -> Option<Vec<u64>>,
        requires
            call_requires(f, (PROBE_BITS,)),
            forall|i: int| 0 <= i < x@.len() ==> call_requires(f, (x@[i],)),
            forall|a: Vec<Vec<u64>>, b: Vec<u64>| #[trigger] call_requires(solver, (a, b)),
        ensures
            x@.len() != t@.len() ==> r == Err::<LinearRegression, FitError>(
                FitError::DimensionMismatch,
            ),
            x@.len() == t@.len() && x@.len() == 0 ==> r == Err::<LinearRegression, FitError>(
                FitError::SolveError,
            ),
            r matches Ok(m) ==> {
                &&& m.wf()
                &&& x@.len() == t@.len()
                &&& m.rows() == x@.len()
                &&& (exists|probe: Vec<u64>|
                    call_ensures(f, (PROBE_BITS,), probe) && m.cols() == 1 + probe@.len())
                &&& rows_match_features(f, x@, m.design())
                &&& (exists|a: Vec<Vec<u64>>, b: Vec<u64>, w: Vec<u64>|
                    {
                        &&& matrix_view(a@) == m.design()
                        &&& b@ == t@
                        &&& call_ensures(solver, (a, b), Some(w))
                        &&& w@ == m.coeffs()
                    })
            },
            r == Err::<LinearRegression, FitError>(FitError::DimensionMismatch) ==> x@.len()
                != t@.len() || (exists|i: int, probe: Vec<u64>, feats: Vec<u64>|
                {
                    &&& 0 <= i < x@.len()
                    &&& call_ensures(f, (PROBE_BITS,), probe)
                    &&& call_ensures(f, (x@[i],), feats)
                    &&& feats@.len() != probe@.len()
                }),
            r == Err::<LinearRegression, FitError>(FitError::SolveError) ==> x@.len() == t@.len()
                && (x@.len() == 0 || (exists|a: Vec<Vec<u64>>, b: Vec<u64>, o: Option<Vec<u64>>|
                {
                    &&& rows_match_features(f, x@, matrix_view(a@))
                    &&& b@ == t@
                    &&& call_ensures(solver, (a, b), o)
                    &&& rejected_solution(o, matrix_view(a@)[0].len())
                })),
    {
        if x.len() != t.len() {
            return Err(FitError::DimensionMismatch);
        }
        if x.len() == 0 {
            return Err(FitError::SolveError);
        }
        let probe = f(PROBE_BITS);
        let feature_count = probe.len();

        let mut phi: Vec<Vec<u64>> = Vec::new();
        let ghost mut witnesses: Seq<Vec<u64>> = Seq::empty();
        let mut i: usize = 0;
        while i < x.len()
            invariant
                i <= x@.len(),
                x@.len() == t@.len(),
                x@.len() > 0,
                call_requires(f, (PROBE_BITS,)),
                forall|k: int| 0 <= k < x@.len() ==> call_requires(f, (x@[k],)),
                call_ensures(f, (PROBE_BITS,), probe),
                feature_count == probe@.len(),
                phi@.len() == i,
                witnesses.len() == i,
                forall|j: int|
                    0 <= j < i ==> (#[trigger] phi@[j])@.len() == feature_count as nat + 1,
                forall|j: int| 0 <= j < i ==> (#[trigger] phi@[j])@[0] == ONE_BITS,
                forall|j: int|
                    0 <= j < i ==> call_ensures(f, (x@[j],), #[trigger] witnesses[j]),
                forall|j: int| 0 <= j < i ==> (#[trigger] phi@[j])@ == design_row(witnesses[j]@),
            decreases x@.len() - i,
        {
            let mut feats = f(x[i]);
            let ghost feats0 = feats;
            if feats.len() != feature_count {
                return Err(FitError::DimensionMismatch);
            }
            let mut row: Vec<u64> = Vec::new();
            row.push(ONE_BITS);
            row.append(&mut feats);
            assert(row@ == design_row(feats0@));
            phi.push(row);
            proof {
                witnesses = witnesses.push(feats0);
            }
            i += 1;
        }

        let cols = phi[0].len();
        let phi_arg = copy_matrix(&phi);
        let t_arg = copy_vector(t);
        let ghost solver_matrix = phi_arg;
        proof {
            assert forall|j: int| 0 <= j < x@.len() implies row_matches_feature(
                f,
                x@[j],
                #[trigger] matrix_view(solver_matrix@)[j],
            ) by {
                assert(matrix_view(solver_matrix@)[j] == matrix_view(phi@)[j]);
                assert(matrix_view(phi@)[j] == phi@[j]@);
                assert(call_ensures(f, (x@[j],), witnesses[j]) && matrix_view(solver_matrix@)[j]
                    == design_row(witnesses[j]@));
            }
            assert(matrix_view(solver_matrix@).len() == x@.len());
            assert(rows_match_features(f, x@, matrix_view(solver_matrix@)));
        }
        let solved = solver(phi_arg, t_arg);
        match solved {
            None => {
                proof {
                    assert(rejected_solution(None::<Vec<u64>>, matrix_view(solver_matrix@)[0].len()));
                }
                Err(FitError::SolveError)
            },
            Some(w) => {
                if w.len() != cols {
                    proof {
                        assert(matrix_view(solver_matrix@)[0] == phi@[0]@);
                        assert(rejected_solution(
                            Some(w),
                            matrix_view(solver_matrix@)[0].len(),
                        ));
                    }
                    return Err(FitError::SolveError);
                }
                let model = LinearRegression { coefficients: w, phi_x: phi };
                proof {
                    assert(model.design() == matrix_view(solver_matrix@));
                    assert(rows_match_features(f, x@, model.design()));
                }
                Ok(model)
            },
        }
    }

    /// Re-evaluate the fitted model on the design matrix stored at fit
    /// time: one prediction per observation, in sample order.
    ///
    /// `dot` is the scalar product kernel, handed one design row and the
    /// coefficient vector at a time; like the solver of `fit` it carries
    /// the floating-point arithmetic the library cannot model. The
    /// contract pins everything else: the result has exactly one entry
    /// per design-matrix row, and entry i is an outcome of the kernel on
    /// precisely row i and the stored coefficients. The model itself is
    /// never changed by prediction.
    pub fn predict<D: Fn(Vec<u64>, Vec<u64>) -> u64>(&self, dot: D) -> (r: Vec<u64>)
        requires
            forall|a: Vec<u64>, b: Vec<u64>| #[trigger] call_requires(dot, (a, b)),
        ensures
            r@.len() == self.rows(),
            predictions_match(dot, self.design(), self.coeffs(), r@),
    {
        let mut r: Vec<u64> = Vec::new();
        let mut i: usize = 0;
        while i < self.phi_x.len()
            invariant
                i <= self.phi_x@.len(),
                r@.len() == i,
                forall|a: Vec<u64>, b: Vec<u64>| #[trigger] call_requires(dot, (a, b)),
                forall|j: int|
                    0 <= j < i ==> prediction_entry(
                        dot,
                        self.design()[j],
                        self.coeffs(),
                        #[trigger] r@[j],
                    ),
            decreases self.phi_x@.len() - i,
        {
            let row = copy_vector(&self.phi_x[i]);
            let coeffs = copy_vector(&self.coefficients);
            let ghost row_arg = row;
            let ghost coeffs_arg = coeffs;
            let y = dot(row, coeffs);
            r.push(y);
            proof {
                assert(row_arg@ == self.design()[i as int]);
                assert(call_ensures(dot, (row_arg, coeffs_arg), y));
                assert(prediction_entry(dot, self.design()[i as int], self.coeffs(), y));
            }
            i += 1;
        }
        assert(r@.len() == self.design().len());
        r
    }

    /// Read access to the fitted coefficients.
    pub fn coefficients(&self) -> (r: &Vec<u64>)
        ensures
            r@ == self.coeffs(),
    {
        &self.coefficients
    }

    /// Read access to the design matrix built at fit time.
    pub fn design_matrix(&self) -> (r: &Vec<Vec<u64>>)
        ensures
            matrix_view(r@) == self.design(),
    {
        &self.phi_x
    }
}

/// An element-for-element copy of a scalar vector.
fn copy_vector(v: &Vec<u64>) -> (r: Vec<u64>)
    ensures
        r@ == v@,
{
    let mut r: Vec<u64> = Vec::new();
    let mut i: usize = 0;
    while i < v.len()
        invariant
            i <= v@.len(),
            r@ == v@.take(i as int),
        decreases v@.len() - i,
    {
        r.push(v[i]);
        assert(v@.take(i + 1) =~= v@.take(i as int).push(v@[i as int]));
        i += 1;
    }
    assert(v@.take(v@.len() as int) =~= v@);
    r
}

/// A row-for-row copy of a matrix; the rows of the copy read the same as
/// the rows of `m`.
fn copy_matrix(m: &Vec<Vec<u64>>) -> (r: Vec<Vec<u64>>)
    ensures
        matrix_view(r@) == matrix_view(m@),
{
    let mut r: Vec<Vec<u64>> = Vec::new();
    let mut i: usize = 0;
    while i < m.len()
        invariant
            i <= m@.len(),
            r@.len() == i,
            forall|j: int| 0 <= j < i ==> (#[trigger] r@[j])@ == m@[j]@,
        decreases m@.len() - i,
    {
        let row = copy_vector(&m[i]);
        r.push(row);
        i += 1;
    }
    assert(matrix_view(r@) =~= matrix_view(m@));
    r
}

} // verus!
