//! The trainer: hyperparameters, dataset assembly, and the verified
//! pieces of the limited-memory quasi-Newton driver.
//!
//! The optimization loop itself alternates outside work (the objective's
//! elementwise exponentials and the curvature-buffer direction of the
//! `lbfgs` crate, both of which work on values this crate cannot hold)
//! with the decisions below; the caller runs the loop, performing the
//! outside work between the steps, and every arithmetic step and
//! decision here is verified.

use crate::dataset::{Dataset, Item, Sequence};
use crate::encoder::Crf1dEncoder;
use crate::model::nz_count;
use crate::floats::{
    fadd, fle, flt, fmul, fneg, fsub, fabs, fsign_neg, fis_zero, fadd_x, fle_x, flt_x, fmul_x,
    fneg_x, fsub_x, fabs_x, fsign_neg_x, fis_zero_x, F_ONE, F_ZERO,
};
use crate::CrfError;
use vstd::prelude::*;

verus! {

/// Bit pattern of 1e-5, the default gradient and improvement tolerance.
pub const F_EPS_DEFAULT: u64 = 0x3EE4_F8B5_88E3_68F1;

/// Bit pattern of 2.0.
pub const F_TWO: u64 = 0x4000_0000_0000_0000;

/// A hyperparameter value: a count or a real (binary64 bit pattern).
#[derive(Debug, Clone, Copy, PartialEq, Eq, Structural)]
pub enum ParamValue {
    Int(usize),
    Real(u64),
}

/// The left fold of `fadd(acc, a[i] * b[i])`: the dot product in
/// summation order.
pub open spec fn fdot_spec(a: Seq<u64>, b: Seq<u64>, n: int) -> u64
    decreases n,
{
    if n <= 0 {
        F_ZERO
    } else {
        fadd(fdot_spec(a, b, n - 1), fmul(a[n - 1], b[n - 1]))
    }
}

/// The dot product of two weight vectors, folded left to right.
pub fn fdot(a: &Vec<u64>, b: &Vec<u64>) -> (r: u64)
    requires
        a@.len() == b@.len(),
    ensures
        r == fdot_spec(a@, b@, a@.len() as int),
{
    let n = a.len();
    let mut acc: u64 = F_ZERO;
    let mut i: usize = 0;
    while i < n
        invariant
            i <= n,
            n == a@.len(),
            n == b@.len(),
            acc == fdot_spec(a@, b@, i as int),
        decreases n - i,
    {
        acc = fadd_x(acc, fmul_x(a[i], b[i]));
        i += 1;
    }
    acc
}

/// `y[i] = y[i] + s * x[i]` elementwise.
pub fn vec_add_scaled(y: &mut Vec<u64>, x: &Vec<u64>, s: u64)
    requires
        old(y)@.len() == x@.len(),
    ensures
        final(y)@.len() == old(y)@.len(),
        forall|i: int|
            0 <= i < final(y)@.len() ==> final(y)@[i] == fadd(old(y)@[i], fmul(s, x@[i])),
{
    let n = y.len();
    let mut i: usize = 0;
    while i < n
        invariant
            i <= n,
            n == x@.len(),
            y@.len() == n,
            forall|k: int| 0 <= k < i ==> y@[k] == fadd(old(y)@[k], fmul(s, x@[k])),
            forall|k: int| i <= k < n ==> y@[k] == old(y)@[k],
        decreases n - i,
    {
        let nv = fadd_x(y[i], fmul_x(s, x[i]));
        y.set(i, nv);
        i += 1;
    }
}

/// The L2 regularization step of one evaluation: add `2*c2*w[i]` onto
/// every gradient entry and `c2 * (w . w)` onto the objective value,
/// with the norm accumulated in index order.
pub fn l2_regularize(f: u64, w: &Vec<u64>, g: &mut Vec<u64>, c2: u64) -> (r: u64)
    requires
        old(g)@.len() == w@.len(),
    ensures
        final(g)@.len() == old(g)@.len(),
        forall|i: int|
            0 <= i < final(g)@.len() ==> final(g)@[i] == fadd(
                old(g)@[i],
                fmul(fmul(c2, F_TWO), w@[i]),
            ),
        r == fadd(f, fmul(c2, fdot_spec(w@, w@, w@.len() as int))),
{
    let c22 = fmul_x(c2, F_TWO);
    let n = w.len();
    let mut norm: u64 = F_ZERO;
    let mut i: usize = 0;
    while i < n
        invariant
            i <= n,
            n == w@.len(),
            g@.len() == n,
            norm == fdot_spec(w@, w@, i as int),
            c22 == fmul(c2, F_TWO),
            forall|k: int| 0 <= k < i ==> g@[k] == fadd(old(g)@[k], fmul(c22, w@[k])),
            forall|k: int| i <= k < n ==> g@[k] == old(g)@[k],
        decreases n - i,
    {
        let nv = fadd_x(g[i], fmul_x(c22, w[i]));
        g.set(i, nv);
        norm = fadd_x(norm, fmul_x(w[i], w[i]));
        i += 1;
    }
    fadd_x(f, fmul_x(c2, norm))
}

/// The left fold of `fadd(acc, |w[i]|)`: the L1 norm in summation
/// order.
pub open spec fn fsum_abs(w: Seq<u64>, n: int) -> u64
    decreases n,
{
    if n <= 0 {
        F_ZERO
    } else {
        fadd(fsum_abs(w, n - 1), fabs(w[n - 1]))
    }
}

/// The pseudo-gradient entry of the orthant-wise method at one
/// coordinate: where the weight is nonzero, the gradient shifted by
/// `c1` against the weight's sign; where it is zero, the gradient
/// pulled toward zero by `c1` and clipped to zero inside the band.
pub open spec fn owlqn_pg_entry(wi: u64, gi: u64, c1: u64) -> u64 {
    if !fis_zero(wi) {
        if fsign_neg(wi) {
            fsub(gi, c1)
        } else {
            fadd(gi, c1)
        }
    } else {
        if flt(F_ZERO, fsub(gi, c1)) {
            fsub(gi, c1)
        } else if flt(fadd(gi, c1), F_ZERO) {
            fadd(gi, c1)
        } else {
            F_ZERO
        }
    }
}

/// The L1 term and pseudo-gradient of the orthant-wise method: the
/// objective gains `c1 * sum |w[i]|`; where `w[i]` is nonzero the
/// pseudo-gradient is `g[i] + c1 * sign(w[i])`, and where it is zero the
/// pseudo-gradient is pushed toward zero and clipped.
pub fn owlqn_pseudo_gradient(f: u64, w: &Vec<u64>, g: &Vec<u64>, c1: u64) -> (r: (u64, Vec<u64>))
    requires
        g@.len() == w@.len(),
    ensures
        r.0 == fadd(f, fmul(c1, fsum_abs(w@, w@.len() as int))),
        r.1@.len() == w@.len(),
        forall|i: int| 0 <= i < w@.len() ==> r.1@[i] == owlqn_pg_entry(w@[i], g@[i], c1),
{
    let n = w.len();
    let mut pg: Vec<u64> = Vec::new();
    let mut norm1: u64 = F_ZERO;
    let mut i: usize = 0;
    while i < n
        invariant
            i <= n,
            n == w@.len(),
            n == g@.len(),
            pg@.len() == i,
            norm1 == fsum_abs(w@, i as int),
            forall|k: int| 0 <= k < i ==> pg@[k] == owlqn_pg_entry(w@[k], g@[k], c1),
        decreases n - i,
    {
        norm1 = fadd_x(norm1, fabs_x(w[i]));
        if !fis_zero_x(w[i]) {
            if fsign_neg_x(w[i]) {
                pg.push(fsub_x(g[i], c1));
            } else {
                pg.push(fadd_x(g[i], c1));
            }
        } else {
            let lo = fsub_x(g[i], c1);
            let hi = fadd_x(g[i], c1);
            if flt_x(F_ZERO, lo) {
                pg.push(lo);
            } else if flt_x(hi, F_ZERO) {
                pg.push(hi);
            } else {
                pg.push(F_ZERO);
            }
        }
        i += 1;
    }
    (fadd_x(f, fmul_x(c1, norm1)), pg)
}

/// Project a candidate point onto the orthant of the reference point:
/// an entry whose sign differs from the reference orientation is set to
/// zero.  Where the reference entry is zero, the orientation is the
/// negated pseudo-gradient's sign.
pub fn owlqn_project(w: &mut Vec<u64>, w_ref: &Vec<u64>, pg: &Vec<u64>)
    requires
        old(w)@.len() == w_ref@.len(),
        old(w)@.len() == pg@.len(),
    ensures
        final(w)@.len() == old(w)@.len(),
        forall|i: int|
            0 <= i < final(w)@.len() ==> final(w)@[i] == (if fsign_neg(old(w)@[i]) != (if fis_zero(
                w_ref@[i],
            ) {
                !fsign_neg(pg@[i])
            } else {
                fsign_neg(w_ref@[i])
            }) {
                F_ZERO
            } else {
                old(w)@[i]
            }),
    {
    let n = w.len();
    let mut i: usize = 0;
    while i < n
        invariant
            i <= n,
            n == w_ref@.len(),
            n == pg@.len(),
            w@.len() == n,
            forall|k: int|
                0 <= k < i ==> w@[k] == (if fsign_neg(old(w)@[k]) != (if fis_zero(w_ref@[k]) {
                    !fsign_neg(pg@[k])
                } else {
                    fsign_neg(w_ref@[k])
                }) {
                    F_ZERO
                } else {
                    old(w)@[k]
                }),
            forall|k: int| i <= k < n ==> w@[k] == old(w)@[k],
        decreases n - i,
    {
        let orient_neg = if fis_zero_x(w_ref[i]) {
            !fsign_neg_x(pg[i])
        } else {
            fsign_neg_x(w_ref[i])
        };
        if fsign_neg_x(w[i]) != orient_neg {
            w.set(i, F_ZERO);
        }
        i += 1;
    }
}

/// The number of nonzero weights.
pub fn active_features(w: &Vec<u64>) -> (r: usize)
    ensures
        r == nz_count(w@, w@.len() as int),
{
    let n = w.len();
    let mut c: usize = 0;
    let mut i: usize = 0;
    while i < n
        invariant
            i <= n,
            n == w@.len(),
            c == nz_count(w@, i as int),
            c <= i,
        decreases n - i,
    {
        if !fis_zero_x(w[i]) {
            c += 1;
        }
        i += 1;
    }
    c
}

/// The gradient-norm stopping rule, on squared norms:
/// `gnorm <= epsilon * max(1, xnorm)` holds exactly when
/// `gnorm2 <= (epsilon * max(1, xnorm))^2` does for the nonnegative
/// reals involved; the comparison is made in the squared domain.
pub fn gnorm_converged(gnorm2: u64, xnorm2: u64, epsilon: u64) -> (r: bool)
    ensures
        r == fle(
            gnorm2,
            fmul(fmul(epsilon, epsilon), (if flt(xnorm2, F_ONE) {
                F_ONE
            } else {
                xnorm2
            })),
        ),
{
    let m = if flt_x(xnorm2, F_ONE) {
        F_ONE
    } else {
        xnorm2
    };
    fle_x(gnorm2, fmul_x(fmul_x(epsilon, epsilon), m))
}

/// The relative-improvement stopping rule over `past` iterations:
/// `(f_past - f) / f < delta` stops the run.
pub fn improvement_too_small(f_past: u64, f: u64, delta: u64) -> (r: bool)
    ensures
        r == flt(crate::floats::fdiv(fsub(f_past, f), f), delta),
{
    crate::floats::flt_x(crate::floats::fdiv_x(fsub_x(f_past, f), f), delta)
}



/// Bit pattern of 1e-4, the sufficient-decrease coefficient of the
/// backtracking line search.
pub const F_ARMIJO: u64 = 0x3F1A_36E2_EB1C_432D;

/// Bit pattern of 0.5, the backtracking factor.
pub const F_HALF: u64 = 0x3FE0_0000_0000_0000;

/// Whether a search direction is a descent direction: its inner product
/// with the gradient is negative.
pub fn descent_ok(g_dot_d: u64) -> (r: bool)
    ensures
        r == flt(g_dot_d, F_ZERO),
{
    flt_x(g_dot_d, F_ZERO)
}

/// The sufficient-decrease acceptance test of the backtracking line
/// search: `f_new <= fx + 1e-4 * step * (g . d)`.
pub fn linesearch_accept(f_new: u64, fx: u64, step: u64, g_dot_d: u64) -> (r: bool)
    ensures
        r == fle(f_new, fadd(fx, fmul(fmul(F_ARMIJO, step), g_dot_d))),
{
    fle_x(f_new, fadd_x(fx, fmul_x(fmul_x(F_ARMIJO, step), g_dot_d)))
}

/// Halve the line-search step.
pub fn halve_step(step: u64) -> (r: u64)
    ensures
        r == fmul(step, F_HALF),
{
    fmul_x(step, F_HALF)
}

/// The line-search iterate `x + step * d`.
pub fn linesearch_candidate(x: &Vec<u64>, d: &Vec<u64>, step: u64) -> (r: Vec<u64>)
    requires
        x@.len() == d@.len(),
    ensures
        r@.len() == x@.len(),
        forall|i: int| 0 <= i < r@.len() ==> r@[i] == fadd(x@[i], fmul(step, d@[i])),
{
    let n = x.len();
    let mut out: Vec<u64> = Vec::new();
    let mut i: usize = 0;
    while i < n
        invariant
            i <= n,
            n == x@.len(),
            n == d@.len(),
            out@.len() == i,
            forall|k: int| 0 <= k < i ==> out@[k] == fadd(x@[k], fmul(step, d@[k])),
        decreases n - i,
    {
        out.push(fadd_x(x[i], fmul_x(step, d[i])));
        i += 1;
    }
    out
}

/// What the line search does next after one trial.
#[derive(Debug, Clone, Copy, PartialEq, Eq, Structural)]
pub enum LineSearchStep {
    /// The trial meets the sufficient-decrease test: take it.
    Accept,
    /// The trial fails the test and trials remain: halve the step.
    Shrink,
    /// The trial fails the test and the trial budget is spent.
    GiveUp,
}

/// One line-search decision: accept on sufficient decrease, shrink the
/// step while trials remain, and give up when the budget of
/// `max_trials` trials is spent.
pub fn linesearch_decide(
    f_new: u64,
    fx: u64,
    step: u64,
    g_dot_d: u64,
    trials_done: usize,
    max_trials: usize,
) -> (r: LineSearchStep)
    requires
        trials_done < max_trials,
    ensures
        r == LineSearchStep::Accept <==> fle(
            f_new,
            fadd(fx, fmul(fmul(F_ARMIJO, step), g_dot_d)),
        ),
        r == LineSearchStep::GiveUp <==> !fle(
            f_new,
            fadd(fx, fmul(fmul(F_ARMIJO, step), g_dot_d)),
        ) && trials_done + 1 == max_trials,
        r == LineSearchStep::Shrink <==> !fle(
            f_new,
            fadd(fx, fmul(fmul(F_ARMIJO, step), g_dot_d)),
        ) && trials_done + 1 < max_trials,
{
    if linesearch_accept(f_new, fx, step, g_dot_d) {
        LineSearchStep::Accept
    } else if trials_done + 1 == max_trials {
        LineSearchStep::GiveUp
    } else {
        LineSearchStep::Shrink
    }
}

/// The mutable state of a training run: the current iterate with its
/// objective value and gradient, the best-weight snapshot, and the
/// iteration count.
pub struct OptState {
    pub x: Vec<u64>,
    pub fx: u64,
    pub g: Vec<u64>,
    pub best_w: Vec<u64>,
    pub iteration: usize,
}

impl OptState {
    /// Begin a run at a point with its first evaluation; the snapshot
    /// starts as that point.
    pub fn start(x: Vec<u64>, fx: u64, g: Vec<u64>) -> (r: OptState)
        ensures
            r.x@ == x@,
            r.fx == fx,
            r.g@ == g@,
            r.best_w@ == x@,
            r.iteration == 0,
    {
        let best_w = copy_vec(&x);
        OptState { x, fx, g, best_w, iteration: 0 }
    }

    /// Take an accepted line-search iterate: it becomes the current
    /// point and the best-weight snapshot, so the weights survive a
    /// later line-search failure, and the iteration count advances.
    pub fn accept(&mut self, xn: Vec<u64>, f_new: u64, gn: Vec<u64>)
        requires
            old(self).iteration < usize::MAX,
        ensures
            final(self).x@ == xn@,
            final(self).fx == f_new,
            final(self).g@ == gn@,
            final(self).best_w@ == xn@,
            final(self).iteration == old(self).iteration + 1,
    {
        self.best_w = copy_vec(&xn);
        self.x = xn;
        self.fx = f_new;
        self.g = gn;
        self.iteration += 1;
    }
}

/// A copy of a weight vector.
pub fn copy_vec(v: &Vec<u64>) -> (r: Vec<u64>)
    ensures
        r@ == v@,
{
    let n = v.len();
    let mut out: Vec<u64> = Vec::new();
    let mut i: usize = 0;
    while i < n
        invariant
            i <= n,
            n == v@.len(),
            out@.len() == i,
            forall|k: int| 0 <= k < i ==> out@[k] == v@[k],
        decreases n - i,
    {
        out.push(v[i]);
        i += 1;
    }
    proof {
        assert(out@ =~= v@);
    }
    out
}


/// Constrain a direction to the descent half-space of the
/// pseudo-gradient: an entry pointing against it is zeroed.
pub fn owlqn_align(d: &mut Vec<u64>, pg: &Vec<u64>)
    requires
        old(d)@.len() == pg@.len(),
    ensures
        final(d)@.len() == old(d)@.len(),
        forall|i: int|
            0 <= i < final(d)@.len() ==> final(d)@[i] == (if flt(
                F_ZERO,
                fmul(old(d)@[i], pg@[i]),
            ) {
                F_ZERO
            } else {
                old(d)@[i]
            }),
{
    let n = d.len();
    let mut i: usize = 0;
    while i < n
        invariant
            i <= n,
            n == pg@.len(),
            d@.len() == n,
            forall|k: int|
                0 <= k < i ==> d@[k] == (if flt(F_ZERO, fmul(old(d)@[k], pg@[k])) {
                    F_ZERO
                } else {
                    old(d)@[k]
                }),
            forall|k: int| i <= k < n ==> d@[k] == old(d)@[k],
        decreases n - i,
    {
        if flt_x(F_ZERO, fmul_x(d[i], pg[i])) {
            d.set(i, F_ZERO);
        }
        i += 1;
    }
}

/// The emptiness check of a training run: a dataset with no sequences,
/// or a feature table left empty, cannot train.
pub fn check_trainable(n_seqs: usize, n_features: usize) -> (r: Result<(), CrfError>)
    ensures
        match r {
            Result::Ok(_) => n_seqs > 0 && n_features > 0,
            Result::Err(e) => e == CrfError::Empty && (n_seqs == 0 || n_features == 0),
        },
{
    if n_seqs == 0 || n_features == 0 {
        Err(CrfError::Empty)
    } else {
        Ok(())
    }
}

/// Whether a sequence takes part in training under a holdout group:
/// the held-out group is excluded and serves validation.
pub fn in_training(group: usize, holdout: usize) -> (r: bool)
    ensures
        r == (group != holdout),
{
    group != holdout
}

/// The hyperparameter names the trainer accepts.
pub open spec fn param_known(n: Seq<char>) -> bool {
    ||| n == "c1"@
    ||| n == "c2"@
    ||| n == "epsilon"@
    ||| n == "delta"@
    ||| n == "feature_minfreq"@
    ||| n == "memory"@
    ||| n == "past"@
    ||| n == "max_iterations"@
    ||| n == "linesearch_max"@
    ||| n == "feature_possible_states"@
    ||| n == "feature_possible_transitions"@
}

/// Whether a value fits a parameter: the real-valued coefficients and
/// tolerances take a nonnegative real, the minimum frequency any real,
/// the history length and line-search budget a positive count, and the
/// remaining knobs any count.
pub open spec fn param_value_ok(n: Seq<char>, v: ParamValue) -> bool {
    if n == "c1"@ || n == "c2"@ || n == "epsilon"@ || n == "delta"@ {
        match v {
            ParamValue::Real(x) => !(fsign_neg(x) && !fis_zero(x)),
            ParamValue::Int(_) => false,
        }
    } else if n == "feature_minfreq"@ {
        matches!(v, ParamValue::Real(_))
    } else if n == "memory"@ || n == "linesearch_max"@ {
        match v {
            ParamValue::Int(x) => x > 0,
            ParamValue::Real(_) => false,
        }
    } else if n == "past"@ || n == "max_iterations"@ || n == "feature_possible_states"@ || n
        == "feature_possible_transitions"@ {
        matches!(v, ParamValue::Int(_))
    } else {
        false
    }
}

/// The trainer after a parameter is applied: exactly one field changes.
pub open spec fn param_applied(n: Seq<char>, v: ParamValue, t: Trainer) -> Trainer {
    match v {
        ParamValue::Real(x) => {
            if n == "c1"@ {
                Trainer { c1: x, ..t }
            } else if n == "c2"@ {
                Trainer { c2: x, ..t }
            } else if n == "epsilon"@ {
                Trainer { epsilon: x, ..t }
            } else if n == "delta"@ {
                Trainer { delta: x, ..t }
            } else if n == "feature_minfreq"@ {
                Trainer { encoder: Crf1dEncoder { feature_minfreq: x, ..t.encoder }, ..t }
            } else {
                t
            }
        },
        ParamValue::Int(x) => {
            if n == "memory"@ {
                Trainer { memory: x, ..t }
            } else if n == "past"@ {
                Trainer { past: x, ..t }
            } else if n == "max_iterations"@ {
                Trainer { max_iterations: x, ..t }
            } else if n == "linesearch_max"@ {
                Trainer { linesearch_max: x, ..t }
            } else if n == "feature_possible_states"@ {
                Trainer {
                    encoder: Crf1dEncoder { feature_possible_states: x != 0, ..t.encoder },
                    ..t
                }
            } else if n == "feature_possible_transitions"@ {
                Trainer {
                    encoder: Crf1dEncoder { feature_possible_transitions: x != 0, ..t.encoder },
                    ..t
                }
            } else {
                t
            }
        },
    }
}

/// The trainer: hyperparameters, the training data, and the encoder.
pub struct Trainer {
    pub encoder: Crf1dEncoder,
    pub data: Dataset,
    /// Orthant-wise L1 coefficient (bit pattern; 0.0 disables it).
    pub c1: u64,
    /// L2 coefficient (bit pattern; default 1.0).
    pub c2: u64,
    /// History length of the curvature buffer.
    pub memory: usize,
    /// Gradient-norm stop (bit pattern).
    pub epsilon: u64,
    /// Window of the relative-improvement stop.
    pub past: usize,
    /// Relative-improvement stop (bit pattern).
    pub delta: u64,
    pub max_iterations: usize,
    pub linesearch_max: usize,
}

impl Trainer {
    /// A trainer with the documented defaults.
    pub fn new() -> (r: Trainer)
        ensures
            r.c1 == F_ZERO,
            r.c2 == F_ONE,
            r.memory == 6,
            r.epsilon == F_EPS_DEFAULT,
            r.past == 10,
            r.delta == F_EPS_DEFAULT,
            r.max_iterations == 100,
            r.linesearch_max == 20,
            r.data.seqs@.len() == 0,
            r.encoder.wf(),
    {
        Trainer {
            encoder: Crf1dEncoder::new(),
            data: Dataset::default(),
            c1: F_ZERO,
            c2: F_ONE,
            memory: 6,
            epsilon: F_EPS_DEFAULT,
            past: 10,
            delta: F_EPS_DEFAULT,
            max_iterations: 100,
            linesearch_max: 20,
        }
    }

    /// Set a named hyperparameter: succeeds exactly when the name is
    /// known and the value fits it, and then changes exactly that
    /// parameter.  An unknown name gives `UnknownParam`; a value of the
    /// wrong shape, a zero count where a positive one is needed, or a
    /// negative real gives `BadValue`; on an error nothing changes.
    #[verifier::rlimit(100)]
    #[verifier::spinoff_prover]
    pub fn set(&mut self, name: &str, value: ParamValue) -> (r: Result<(), CrfError>)
        ensures
            match r {
                Result::Ok(_) => {
                    &&& param_known(name@)
                    &&& param_value_ok(name@, value)
                    &&& *final(self) == param_applied(name@, value, *old(self))
                },
                Result::Err(e) => {
                    &&& (e == CrfError::UnknownParam || e == CrfError::BadValue)
                    &&& (e == CrfError::UnknownParam <==> !param_known(name@))
                    &&& (e == CrfError::BadValue <==> param_known(name@) && !param_value_ok(
                        name@,
                        value,
                    ))
                    &&& *final(self) == *old(self)
                },
            },
    {
        proof {
            reveal_strlit("c1");
            reveal_strlit("c2");
            reveal_strlit("epsilon");
            reveal_strlit("delta");
            reveal_strlit("feature_minfreq");
            reveal_strlit("memory");
            reveal_strlit("past");
            reveal_strlit("max_iterations");
            reveal_strlit("linesearch_max");
            reveal_strlit("feature_possible_states");
            reveal_strlit("feature_possible_transitions");
            // "max_iterations" and "linesearch_max" have equal lengths:
            // tell them apart by their first characters.
            assert("max_iterations"@[0] == 'm');
            assert("linesearch_max"@[0] == 'l');
        }
        if name.to_owned() == "c1".to_owned() {
            match value {
                ParamValue::Real(v) => {
                    if fsign_neg_x(v) && !fis_zero_x(v) {
                        return Err(CrfError::BadValue);
                    }
                    self.c1 = v;
                    Ok(())
                },
                _ => Err(CrfError::BadValue),
            }
        } else if name.to_owned() == "c2".to_owned() {
            match value {
                ParamValue::Real(v) => {
                    if fsign_neg_x(v) && !fis_zero_x(v) {
                        return Err(CrfError::BadValue);
                    }
                    self.c2 = v;
                    Ok(())
                },
                _ => Err(CrfError::BadValue),
            }
        } else if name.to_owned() == "epsilon".to_owned() {
            match value {
                ParamValue::Real(v) => {
                    if fsign_neg_x(v) && !fis_zero_x(v) {
                        return Err(CrfError::BadValue);
                    }
                    self.epsilon = v;
                    Ok(())
                },
                _ => Err(CrfError::BadValue),
            }
        } else if name.to_owned() == "delta".to_owned() {
            match value {
                ParamValue::Real(v) => {
                    if fsign_neg_x(v) && !fis_zero_x(v) {
                        return Err(CrfError::BadValue);
                    }
                    self.delta = v;
                    Ok(())
                },
                _ => Err(CrfError::BadValue),
            }
        } else if name.to_owned() == "feature_minfreq".to_owned() {
            match value {
                ParamValue::Real(v) => {
                    self.encoder.feature_minfreq = v;
                    Ok(())
                },
                _ => Err(CrfError::BadValue),
            }
        } else if name.to_owned() == "memory".to_owned() {
            match value {
                ParamValue::Int(v) => {
                    if v == 0 {
                        return Err(CrfError::BadValue);
                    }
                    self.memory = v;
                    Ok(())
                },
                _ => Err(CrfError::BadValue),
            }
        } else if name.to_owned() == "past".to_owned() {
            match value {
                ParamValue::Int(v) => {
                    self.past = v;
                    Ok(())
                },
                _ => Err(CrfError::BadValue),
            }
        } else if name.to_owned() == "max_iterations".to_owned() {
            match value {
                ParamValue::Int(v) => {
                    self.max_iterations = v;
                    Ok(())
                },
                _ => Err(CrfError::BadValue),
            }
        } else if name.to_owned() == "linesearch_max".to_owned() {
            match value {
                ParamValue::Int(v) => {
                    if v == 0 {
                        return Err(CrfError::BadValue);
                    }
                    self.linesearch_max = v;
                    Ok(())
                },
                _ => Err(CrfError::BadValue),
            }
        } else if name.to_owned() == "feature_possible_states".to_owned() {
            match value {
                ParamValue::Int(v) => {
                    self.encoder.feature_possible_states = v != 0;
                    Ok(())
                },
                _ => Err(CrfError::BadValue),
            }
        } else if name.to_owned() == "feature_possible_transitions".to_owned() {
            match value {
                ParamValue::Int(v) => {
                    self.encoder.feature_possible_transitions = v != 0;
                    Ok(())
                },
                _ => Err(CrfError::BadValue),
            }
        } else {
            Err(CrfError::UnknownParam)
        }
    }

    /// Append a training sequence of already-interned items and labels.
    /// An empty pair gives `Empty`; lists of different lengths, or an id
    /// out of the symbol tables' ranges, give `ShapeMismatch`; on an
    /// error nothing changes.  Otherwise the sequence is appended with
    /// unit weight and the given group, and nothing else changes.
    pub fn append(&mut self, items: Vec<Item>, labels: Vec<usize>, group: usize) -> (r: Result<
        (),
        CrfError,
    >)
        ensures
            match r {
                Result::Ok(_) => {
                    &&& items@.len() == labels@.len()
                    &&& items@.len() >= 1
                    &&& (forall|t: int|
                        0 <= t < labels@.len() ==> (#[trigger] labels@[t]) < old(
                            self,
                        ).data.m_labels.view_seq().len())
                    &&& (forall|t: int, a: int|
                        0 <= t < items@.len() && 0 <= a < items@[t]@.len() ==> (
                        #[trigger] items@[t]@[a]).id < old(self).data.m_attrs.view_seq().len())
                    &&& final(self).data.seqs@ == old(self).data.seqs@.push(
                        Sequence { items, labels, weight: F_ONE, group },
                    )
                    &&& final(self).data.m_labels == old(self).data.m_labels
                    &&& final(self).data.m_attrs == old(self).data.m_attrs
                    &&& *final(self) == (Trainer { data: final(self).data, ..*old(self) })
                },
                Result::Err(e) => {
                    &&& *final(self) == *old(self)
                    &&& (e == CrfError::Empty || e == CrfError::ShapeMismatch)
                    &&& (e == CrfError::Empty <==> (items@.len() == 0 && labels@.len() == 0))
                    &&& (e == CrfError::ShapeMismatch <==> !(items@.len() == 0 && labels@.len()
                        == 0) && (items@.len() != labels@.len() || (exists|t: int|
                        0 <= t < labels@.len() && (#[trigger] labels@[t]) >= old(
                            self,
                        ).data.m_labels.view_seq().len()) || (exists|t: int, a: int|
                        0 <= t < items@.len() && 0 <= a < items@[t]@.len() && (
                        #[trigger] items@[t]@[a]).id >= old(self).data.m_attrs.view_seq().len())))
                },
            },
    {
        if items.len() == 0 && labels.len() == 0 {
            return Err(CrfError::Empty);
        }
        if items.len() != labels.len() {
            return Err(CrfError::ShapeMismatch);
        }
        // Validate ids against the symbol tables.
        let nl = self.data.num_labels();
        let na = self.data.num_attrs();
        let tn = items.len();
        let mut t: usize = 0;
        while t < tn
            invariant
                t <= tn,
                tn == items@.len(),
                tn == labels@.len(),
                tn >= 1,
                nl == self.data.m_labels.view_seq().len(),
                na == self.data.m_attrs.view_seq().len(),
                *self == *old(self),
                forall|t2: int| 0 <= t2 < t ==> (#[trigger] labels@[t2]) < nl,
                forall|t2: int, a2: int|
                    0 <= t2 < t && 0 <= a2 < items@[t2]@.len() ==> (#[trigger] items@[t2]@[a2]).id
                        < na,
            decreases tn - t,
        {
            if labels[t] >= nl {
                return Err(CrfError::ShapeMismatch);
            }
            let item = &items[t];
            let an = item.len();
            let mut a: usize = 0;
            while a < an
                invariant
                    a <= an,
                    t < tn,
                    tn == items@.len(),
                    tn == labels@.len(),
                    tn >= 1,
                    an == item@.len(),
                    item == items@[t as int],
                    na == self.data.m_attrs.view_seq().len(),
                    nl == self.data.m_labels.view_seq().len(),
                    *self == *old(self),
                    forall|a2: int| 0 <= a2 < a ==> (#[trigger] items@[t as int]@[a2]).id < na,
                decreases an - a,
            {
                if item[a].id as usize >= na {
                    return Err(CrfError::ShapeMismatch);
                }
                a += 1;
            }
            t += 1;
        }
        let seq = Sequence { items, labels, weight: F_ONE, group };
        self.data.seqs.push(seq);
        Ok(())
    }
}

} // verus!
