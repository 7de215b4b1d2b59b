//! The sequence context: per-position state scores, per-pair transition
//! scores, and the forward/backward/Viterbi working matrices for one
//! sequence of length `T` over a fixed label alphabet of size `L`.
//!
//! All matrices are stored flat, row-major, as binary64 bit patterns; the
//! element `(t, j)` of a `[T][L]` matrix lives at index `t * L + j`.
//! Elementwise exponentials and logarithms cannot be computed in this
//! crate, so `exp_state` / `exp_transition` take the exponentiated tables
//! from the caller, and the log-partition accumulation takes the
//! logarithms of the scale factors from the caller.

use crate::floats::{fadd, fmul, fdiv, flt, fis_zero, fneg, F_ZERO, F_ONE, F_LOWEST, fadd_x, fmul_x, fdiv_x, flt_x, fis_zero_x, fneg_x};
use vstd::prelude::*;

verus! {

/// Capability flags fixed at construction: which working matrices the
/// context allocates.
#[derive(Debug, Clone, Copy, PartialEq, Eq, Structural)]
pub struct CtxOpt {
    /// Allocate the Viterbi back-pointer matrix.
    pub viterbi: bool,
    /// Allocate the exponentiated and marginal-expectation matrices.
    pub marginals: bool,
}

impl CtxOpt {
    /// The Viterbi capability alone.
    pub fn viterbi_only() -> (r: CtxOpt)
        ensures
            r.viterbi && !r.marginals,
    {
        CtxOpt { viterbi: true, marginals: false }
    }

    /// Both capabilities.
    pub fn all() -> (r: CtxOpt)
        ensures
            r.viterbi && r.marginals,
    {
        CtxOpt { viterbi: true, marginals: true }
    }
}

/// Which score matrices `reset` zeroes.
#[derive(Debug, Clone, Copy, PartialEq, Eq, Structural)]
pub struct ResetOpt {
    pub state: bool,
    pub trans: bool,
}

impl ResetOpt {
    pub fn state_only() -> (r: ResetOpt)
        ensures
            r.state && !r.trans,
    {
        ResetOpt { state: true, trans: false }
    }

    pub fn trans_only() -> (r: ResetOpt)
        ensures
            !r.state && r.trans,
    {
        ResetOpt { state: false, trans: true }
    }

    pub fn all() -> (r: ResetOpt)
        ensures
            r.state && r.trans,
    {
        ResetOpt { state: true, trans: true }
    }
}

pub struct Crf1dContext {
    /// Capability flags.
    pub flag: CtxOpt,
    /// The number of distinct labels, L.
    pub num_labels: usize,
    /// The number of items (T) of the currently active sequence.
    pub num_items: usize,
    /// High-water mark: the allocated number of rows.
    pub cap_items: usize,
    /// Logarithm of the normalization factor (bit pattern).
    pub log_norm: u64,
    /// State scores, `[cap_items][L]`.
    pub state: Vec<u64>,
    /// Transition scores, `[L][L]`.
    pub trans: Vec<u64>,
    /// Forward scores, `[cap_items][L]`.
    pub alpha_score: Vec<u64>,
    /// Backward scores, `[cap_items][L]`.
    pub beta_score: Vec<u64>,
    /// Scale factors, `[cap_items]`.
    pub scale_factor: Vec<u64>,
    /// Scratch row, `[L]`.
    pub row: Vec<u64>,
    /// Viterbi back-pointers, `[cap_items][L]`; allocated with the
    /// `viterbi` capability.
    pub backward_edge: Vec<usize>,
    /// Exponentiated state scores, `[cap_items][L]`; allocated with the
    /// `marginals` capability.
    pub exp_state: Vec<u64>,
    /// Exponentiated transition scores, `[L][L]`; with `marginals`.
    pub exp_trans: Vec<u64>,
    /// Marginal expectations of states, `[cap_items][L]`; with `marginals`.
    pub mexp_state: Vec<u64>,
    /// Marginal expectations of transitions, `[L][L]`; with `marginals`.
    pub mexp_trans: Vec<u64>,
}

impl Crf1dContext {
    /// Well-formedness: every matrix has the size its capability demands,
    /// the active length is within the allocated one, and every
    /// back-pointer is a valid label index.
    pub open spec fn wf(self) -> bool {
        &&& self.trans@.len() == self.num_labels * self.num_labels
        &&& self.state@.len() == self.cap_items * self.num_labels
        &&& self.alpha_score@.len() == self.cap_items * self.num_labels
        &&& self.beta_score@.len() == self.cap_items * self.num_labels
        &&& self.scale_factor@.len() == self.cap_items
        &&& self.row@.len() == self.num_labels
        &&& self.backward_edge@.len() == (if self.flag.viterbi {
            self.cap_items * self.num_labels
        } else {
            0
        })
        &&& self.exp_state@.len() == (if self.flag.marginals {
            self.cap_items * self.num_labels
        } else {
            0
        })
        &&& self.mexp_state@.len() == (if self.flag.marginals {
            self.cap_items * self.num_labels
        } else {
            0
        })
        &&& self.exp_trans@.len() == (if self.flag.marginals {
            self.num_labels * self.num_labels
        } else {
            0
        })
        &&& self.mexp_trans@.len() == (if self.flag.marginals {
            self.num_labels * self.num_labels
        } else {
            0
        })
        &&& self.num_items <= self.cap_items
        &&& forall|i: int|
            0 <= i < self.backward_edge@.len() ==> self.backward_edge@[i] < self.num_labels
    }

    /// Whether no sequence is active yet.
    pub open spec fn spec_num_items_is_zero(self) -> bool {
        self.num_items == 0
    }

    pub fn num_items(&self) -> (r: usize)
        ensures
            r == self.num_items,
    {
        self.num_items
    }

    pub fn cap_items(&self) -> (r: usize)
        ensures
            r == self.cap_items,
    {
        self.cap_items
    }

    /// The log-partition value last stored, as a bit pattern.
    pub fn lognorm(&self) -> (r: u64)
        ensures
            r == self.log_norm,
    {
        self.log_norm
    }


    /// The log-domain score of a complete label path over the active
    /// sequence: the state score of the first label, then alternately the
    /// transition and state scores of each following position.
    pub fn score(&self, labels: &Vec<usize>) -> (r: u64)
        requires
            self.wf(),
            1 <= self.num_items,
            1 <= self.num_labels,
            labels@.len() == self.num_items,
            forall|i: int| 0 <= i < labels@.len() ==> labels@[i] < self.num_labels,
        ensures
            r == path_score(
                self.state@,
                self.trans@,
                self.num_labels as int,
                labels@,
                self.num_items - 1,
            ),
    {
        let l = self.num_labels;
        let tn = self.num_items;
        let ll = self.trans.len();
        let cap_l = self.state.len();
        let mut i = labels[0];
        proof {
            lemma_cell_in_matrix(0, i as int, self.cap_items as int, l as int);
        }
        let mut r = self.state[i];
        let mut t: usize = 1;
        while t < tn
            invariant
                self.wf(),
                1 <= t <= tn,
                tn == self.num_items,
                l == self.num_labels,
                1 <= l,
                labels@.len() == tn,
                forall|k: int| 0 <= k < labels@.len() ==> labels@[k] < l,
                i == labels@[t - 1],
                self.trans@.len() <= usize::MAX,
                self.state@.len() <= usize::MAX,
                r == path_score(self.state@, self.trans@, l as int, labels@, t - 1),
            decreases tn - t,
        {
            let j = labels[t];
            proof {
                lemma_cell_in_matrix(i as int, j as int, l as int, l as int);
                lemma_cell_in_matrix(t as int, j as int, self.cap_items as int, l as int);
            }
            r = fadd_x(r, self.trans[i * l + j]);
            r = fadd_x(r, self.state[t * l + j]);
            i = j;
            t += 1;
        }
        r
    }


    /// Run the Viterbi algorithm over the active sequence: fill
    /// `labels` with the best label path under the comparison order (on
    /// ties the lowest-index incoming label wins) and return the
    /// unnormalized score of that path.
    pub fn viterbi(&mut self, labels: &mut Vec<usize>) -> (r: u64)
        requires
            old(self).wf(),
            old(self).flag.viterbi,
            1 <= old(self).num_items,
            1 <= old(self).num_labels,
            old(labels)@.len() == old(self).num_items,
        ensures
            final(self).wf(),
            final(self).flag == old(self).flag,
            final(self).num_labels == old(self).num_labels,
            final(self).num_items == old(self).num_items,
            final(self).cap_items == old(self).cap_items,
            final(self).log_norm == old(self).log_norm,
            final(self).state@ == old(self).state@,
            final(self).trans@ == old(self).trans@,
            final(self).beta_score@ == old(self).beta_score@,
            final(self).scale_factor@ == old(self).scale_factor@,
            final(self).row@ == old(self).row@,
            final(self).exp_state@ == old(self).exp_state@,
            final(self).exp_trans@ == old(self).exp_trans@,
            final(self).mexp_state@ == old(self).mexp_state@,
            final(self).mexp_trans@ == old(self).mexp_trans@,
            final(labels)@.len() == old(self).num_items,
            forall|t: int, j: int|
                0 <= t < old(self).num_items && 0 <= j < old(self).num_labels ==> final(self).alpha_score@[t * old(self).num_labels + j] == vit_row(
                    old(self).state@,
                    old(self).trans@,
                    old(self).num_labels as int,
                    t,
                )[j],
            forall|t: int, j: int|
                1 <= t < old(self).num_items && 0 <= j < old(self).num_labels ==> final(self).backward_edge@[t * old(self).num_labels + j] == vit_bwd_cell(
                    old(self).state@,
                    old(self).trans@,
                    old(self).num_labels as int,
                    old(self).backward_edge@,
                    t,
                    j,
                ),
            forall|t: int|
                0 <= t < old(self).num_items ==> final(labels)@[t] == vit_label(
                    old(self).state@,
                    old(self).trans@,
                    old(self).num_labels as int,
                    old(self).backward_edge@,
                    old(self).num_items as int,
                    t,
                ),
            r == vit_final(
                vit_row(
                    old(self).state@,
                    old(self).trans@,
                    old(self).num_labels as int,
                    old(self).num_items - 1,
                ),
                old(self).num_labels as int,
            ).0,
    {
        let l = self.num_labels;
        let tn = self.num_items;
        let cap = self.cap_items;
        viterbi_impl(
            &mut self.alpha_score,
            &mut self.backward_edge,
            &self.state,
            &self.trans,
            labels,
            l,
            tn,
            cap,
        )
    }

    /// The rescaled forward recursion over the caller-supplied
    /// exponentiated scores: fills the forward matrix and the scale
    /// factors of the active rows.
    pub fn alpha_score(&mut self)
        requires
            old(self).wf(),
            old(self).flag.marginals,
            1 <= old(self).num_items,
            1 <= old(self).num_labels,
        ensures
            final(self).wf(),
            final(self).flag == old(self).flag,
            final(self).num_labels == old(self).num_labels,
            final(self).num_items == old(self).num_items,
            final(self).cap_items == old(self).cap_items,
            final(self).log_norm == old(self).log_norm,
            final(self).state@ == old(self).state@,
            final(self).trans@ == old(self).trans@,
            final(self).beta_score@ == old(self).beta_score@,
            final(self).row@ == old(self).row@,
            final(self).backward_edge@ == old(self).backward_edge@,
            final(self).exp_state@ == old(self).exp_state@,
            final(self).exp_trans@ == old(self).exp_trans@,
            final(self).mexp_state@ == old(self).mexp_state@,
            final(self).mexp_trans@ == old(self).mexp_trans@,
            forall|t: int, j: int|
                0 <= t < old(self).num_items && 0 <= j < old(self).num_labels ==> final(self).alpha_score@[t * old(self).num_labels + j] == alpha_row(
                    old(self).exp_state@,
                    old(self).exp_trans@,
                    old(self).num_labels as int,
                    t,
                )[j],
            forall|t: int|
                0 <= t < old(self).num_items ==> final(self).scale_factor@[t] == alpha_scale(
                    old(self).exp_state@,
                    old(self).exp_trans@,
                    old(self).num_labels as int,
                    t,
                ),
    {
        let l = self.num_labels;
        let tn = self.num_items;
        let cap = self.cap_items;
        alpha_impl(
            &mut self.alpha_score,
            &mut self.scale_factor,
            &self.exp_state,
            &self.exp_trans,
            l,
            tn,
            cap,
        );
    }

    /// Store the caller-supplied elementwise exponentials of the state
    /// scores for the active region; the exponential itself cannot be
    /// computed in this crate.
    pub fn exp_state(&mut self, vals: &Vec<u64>)
        requires
            old(self).wf(),
            old(self).flag.marginals,
            vals@.len() <= old(self).num_items * old(self).num_labels,
        ensures
            final(self).wf(),
            final(self).flag == old(self).flag,
            final(self).num_labels == old(self).num_labels,
            final(self).num_items == old(self).num_items,
            final(self).cap_items == old(self).cap_items,
            final(self).log_norm == old(self).log_norm,
            final(self).state@ == old(self).state@,
            final(self).trans@ == old(self).trans@,
            final(self).alpha_score@ == old(self).alpha_score@,
            final(self).beta_score@ == old(self).beta_score@,
            final(self).scale_factor@ == old(self).scale_factor@,
            final(self).row@ == old(self).row@,
            final(self).backward_edge@ == old(self).backward_edge@,
            final(self).exp_trans@ == old(self).exp_trans@,
            final(self).mexp_state@ == old(self).mexp_state@,
            final(self).mexp_trans@ == old(self).mexp_trans@,
            final(self).exp_state@.len() == old(self).exp_state@.len(),
            forall|k: int|
                0 <= k < final(self).exp_state@.len() ==> final(self).exp_state@[k] == (if k
                    < vals@.len() {
                    vals@[k]
                } else {
                    old(self).exp_state@[k]
                }),
    {
        proof {
            lemma_active_region(
                self.num_items as int,
                self.cap_items as int,
                self.num_labels as int,
            );
        }
        copy_range(&mut self.exp_state, vals);
    }

    /// Store the caller-supplied elementwise exponentials of the
    /// transition scores.
    pub fn exp_transition(&mut self, vals: &Vec<u64>)
        requires
            old(self).wf(),
            old(self).flag.marginals,
            vals@.len() == old(self).num_labels * old(self).num_labels,
        ensures
            final(self).wf(),
            final(self).flag == old(self).flag,
            final(self).num_labels == old(self).num_labels,
            final(self).num_items == old(self).num_items,
            final(self).cap_items == old(self).cap_items,
            final(self).log_norm == old(self).log_norm,
            final(self).state@ == old(self).state@,
            final(self).trans@ == old(self).trans@,
            final(self).alpha_score@ == old(self).alpha_score@,
            final(self).beta_score@ == old(self).beta_score@,
            final(self).scale_factor@ == old(self).scale_factor@,
            final(self).row@ == old(self).row@,
            final(self).backward_edge@ == old(self).backward_edge@,
            final(self).exp_state@ == old(self).exp_state@,
            final(self).mexp_state@ == old(self).mexp_state@,
            final(self).mexp_trans@ == old(self).mexp_trans@,
            final(self).exp_trans@ =~= vals@,
    {
        copy_range(&mut self.exp_trans, vals);
    }

    /// Fold the caller-supplied logarithms of the scale factors into the
    /// log-partition value: `log_norm = -(ln c_0 + ... + ln c_{T-1})`.
    /// The logarithm itself cannot be computed in this crate.
    pub fn set_log_norm(&mut self, ln_scales: &Vec<u64>)
        requires
            old(self).wf(),
            ln_scales@.len() == old(self).num_items,
        ensures
            final(self).wf(),
            final(self).flag == old(self).flag,
            final(self).num_labels == old(self).num_labels,
            final(self).num_items == old(self).num_items,
            final(self).cap_items == old(self).cap_items,
            final(self).state@ == old(self).state@,
            final(self).trans@ == old(self).trans@,
            final(self).alpha_score@ == old(self).alpha_score@,
            final(self).beta_score@ == old(self).beta_score@,
            final(self).scale_factor@ == old(self).scale_factor@,
            final(self).row@ == old(self).row@,
            final(self).backward_edge@ == old(self).backward_edge@,
            final(self).exp_state@ == old(self).exp_state@,
            final(self).exp_trans@ == old(self).exp_trans@,
            final(self).mexp_state@ == old(self).mexp_state@,
            final(self).mexp_trans@ == old(self).mexp_trans@,
            final(self).log_norm == fneg(fsum(ln_scales@)),
    {
        let mut s: u64 = F_ZERO;
        let mut i: usize = 0;
        let n = ln_scales.len();
        while i < n
            invariant
                i <= n,
                n == ln_scales@.len(),
                s == fsum_prefix(ln_scales@, i as int),
            decreases n - i,
        {
            s = fadd_x(s, ln_scales[i]);
            i += 1;
        }
        self.log_norm = fneg_x(s);
    }


    /// The rescaled backward recursion over the caller-supplied
    /// exponentiated scores and the scale factors of the forward pass.
    pub fn beta_score(&mut self)
        requires
            old(self).wf(),
            old(self).flag.marginals,
            1 <= old(self).num_items,
            1 <= old(self).num_labels,
        ensures
            final(self).wf(),
            final(self).flag == old(self).flag,
            final(self).num_labels == old(self).num_labels,
            final(self).num_items == old(self).num_items,
            final(self).cap_items == old(self).cap_items,
            final(self).log_norm == old(self).log_norm,
            final(self).state@ == old(self).state@,
            final(self).trans@ == old(self).trans@,
            final(self).alpha_score@ == old(self).alpha_score@,
            final(self).scale_factor@ == old(self).scale_factor@,
            final(self).backward_edge@ == old(self).backward_edge@,
            final(self).exp_state@ == old(self).exp_state@,
            final(self).exp_trans@ == old(self).exp_trans@,
            final(self).mexp_state@ == old(self).mexp_state@,
            final(self).mexp_trans@ == old(self).mexp_trans@,
            forall|t: int, i: int|
                0 <= t < old(self).num_items && 0 <= i < old(self).num_labels ==> final(self).beta_score@[t * old(self).num_labels + i] == beta_row(
                    old(self).exp_state@,
                    old(self).exp_trans@,
                    old(self).scale_factor@,
                    old(self).num_labels as int,
                    old(self).num_items as int,
                    t,
                )[i],
    {
        let l = self.num_labels;
        let tn = self.num_items;
        let cap = self.cap_items;
        beta_impl(
            &mut self.beta_score,
            &mut self.row,
            &self.exp_state,
            &self.exp_trans,
            &self.scale_factor,
            l,
            tn,
            cap,
        );
    }

    /// Compute the marginal expectations from the forward and backward
    /// matrices: state marginals are assigned; transition marginals are
    /// accumulated onto the existing contents (across the sequences of a
    /// batch).
    pub fn marginals(&mut self)
        requires
            old(self).wf(),
            old(self).flag.marginals,
            1 <= old(self).num_items,
            1 <= old(self).num_labels,
        ensures
            final(self).wf(),
            final(self).flag == old(self).flag,
            final(self).num_labels == old(self).num_labels,
            final(self).num_items == old(self).num_items,
            final(self).cap_items == old(self).cap_items,
            final(self).log_norm == old(self).log_norm,
            final(self).state@ == old(self).state@,
            final(self).trans@ == old(self).trans@,
            final(self).alpha_score@ == old(self).alpha_score@,
            final(self).beta_score@ == old(self).beta_score@,
            final(self).scale_factor@ == old(self).scale_factor@,
            final(self).backward_edge@ == old(self).backward_edge@,
            final(self).exp_state@ == old(self).exp_state@,
            final(self).exp_trans@ == old(self).exp_trans@,
            forall|t: int, i: int|
                0 <= t < old(self).num_items && 0 <= i < old(self).num_labels ==> final(self).mexp_state@[t * old(self).num_labels + i] == mexp_state_cell(
                    old(self).alpha_score@,
                    old(self).beta_score@,
                    old(self).scale_factor@,
                    old(self).num_labels as int,
                    t,
                    i,
                ),
            forall|i: int, j: int|
                0 <= i < old(self).num_labels && 0 <= j < old(self).num_labels ==> #[trigger] final(self).mexp_trans@[i * old(self).num_labels + j] == mtrans_cell(
                    old(self).mexp_trans@,
                    old(self).alpha_score@,
                    old(self).beta_score@,
                    old(self).exp_state@,
                    old(self).exp_trans@,
                    old(self).num_labels as int,
                    i,
                    j,
                    old(self).num_items - 1,
                ),
    {
        let l = self.num_labels;
        let tn = self.num_items;
        let cap = self.cap_items;
        marginals_impl(
            &mut self.mexp_state,
            &mut self.mexp_trans,
            &mut self.row,
            &self.alpha_score,
            &self.beta_score,
            &self.scale_factor,
            &self.exp_state,
            &self.exp_trans,
            l,
            tn,
            cap,
        );
    }

    /// Allocate a context for `num_labels` labels, grown to hold
    /// `num_items` items; the active length starts at zero.
    pub fn new(flag: CtxOpt, num_labels: usize, num_items: usize) -> (r: Crf1dContext)
        requires
            num_labels * num_labels <= usize::MAX,
            num_items * num_labels <= usize::MAX,
        ensures
            r.wf(),
            r.flag == flag,
            r.num_labels == num_labels,
            r.num_items == 0,
            r.cap_items == num_items,
            r.trans@ =~= Seq::new((num_labels * num_labels) as nat, |i: int| F_ZERO),
            r.flag.marginals ==> r.exp_trans@ =~= Seq::new(
                (num_labels * num_labels) as nat,
                |i: int| F_ZERO,
            ),
            r.flag.marginals ==> r.mexp_trans@ =~= Seq::new(
                (num_labels * num_labels) as nat,
                |i: int| F_ZERO,
            ),
            forall|i: int| 0 <= i < r.state@.len() ==> r.state@[i] == F_ZERO,
            forall|i: int| 0 <= i < r.alpha_score@.len() ==> r.alpha_score@[i] == F_ZERO,
            forall|i: int| 0 <= i < r.scale_factor@.len() ==> r.scale_factor@[i] == F_ZERO,
            r.log_norm == F_ZERO,
    {
        let ll = num_labels * num_labels;
        let tl = num_items * num_labels;
        let mut this = Crf1dContext {
            flag,
            num_labels,
            num_items: 0,
            cap_items: num_items,
            log_norm: F_ZERO,
            state: zero_vec(tl),
            trans: zero_vec(ll),
            alpha_score: zero_vec(tl),
            beta_score: zero_vec(tl),
            scale_factor: zero_vec(num_items),
            row: zero_vec(num_labels),
            backward_edge: if flag.viterbi {
                zero_usize_vec(tl)
            } else {
                Vec::new()
            },
            exp_state: if flag.marginals {
                zero_vec(tl)
            } else {
                Vec::new()
            },
            exp_trans: if flag.marginals {
                zero_vec(ll)
            } else {
                Vec::new()
            },
            mexp_state: if flag.marginals {
                zero_vec(tl)
            } else {
                Vec::new()
            },
            mexp_trans: if flag.marginals {
                zero_vec(ll)
            } else {
                Vec::new()
            },
        };
        this
    }

    /// Set the active length to `num_items`, growing (and zeroing) the
    /// per-item matrices when the allocation does not cover it yet.
    /// Rows beyond the previous active region keep undefined contents;
    /// callers reset what they use.
    pub fn resize(&mut self, num_items: usize)
        requires
            old(self).wf(),
            num_items * old(self).num_labels <= usize::MAX,
        ensures
            final(self).wf(),
            final(self).num_items == num_items,
            final(self).cap_items == (if old(self).cap_items < num_items {
                num_items
            } else {
                old(self).cap_items
            }),
            final(self).flag == old(self).flag,
            final(self).num_labels == old(self).num_labels,
            final(self).log_norm == old(self).log_norm,
            final(self).trans@ == old(self).trans@,
            final(self).exp_trans@ == old(self).exp_trans@,
            final(self).mexp_trans@ == old(self).mexp_trans@,
            old(self).cap_items >= num_items ==> {
                &&& final(self).state@ == old(self).state@
                &&& final(self).alpha_score@ == old(self).alpha_score@
                &&& final(self).beta_score@ == old(self).beta_score@
                &&& final(self).scale_factor@ == old(self).scale_factor@
                &&& final(self).backward_edge@ == old(self).backward_edge@
                &&& final(self).exp_state@ == old(self).exp_state@
                &&& final(self).mexp_state@ == old(self).mexp_state@
            },
            old(self).cap_items < num_items ==> {
                &&& forall|i: int| 0 <= i < final(self).state@.len() ==> final(self).state@[i] == F_ZERO
                &&& forall|i: int|
                    0 <= i < final(self).alpha_score@.len() ==> final(self).alpha_score@[i] == F_ZERO
                &&& forall|i: int| 0 <= i < final(self).beta_score@.len() ==> final(self).beta_score@[i] == F_ZERO
                &&& forall|i: int|
                    0 <= i < final(self).scale_factor@.len() ==> final(self).scale_factor@[i] == F_ZERO
                &&& forall|i: int|
                    0 <= i < final(self).backward_edge@.len() ==> final(self).backward_edge@[i] == 0
                &&& forall|i: int| 0 <= i < final(self).exp_state@.len() ==> final(self).exp_state@[i] == F_ZERO
                &&& forall|i: int| 0 <= i < final(self).mexp_state@.len() ==> final(self).mexp_state@[i] == F_ZERO
            },
    {
        let num_labels = self.num_labels;
        self.num_items = num_items;
        if self.cap_items < num_items {
            let tl = num_items * num_labels;
            self.alpha_score = zero_vec(tl);
            self.beta_score = zero_vec(tl);
            self.scale_factor = zero_vec(num_items);
            self.row = zero_vec(num_labels);
            self.state = zero_vec(tl);
            if self.flag.viterbi {
                self.backward_edge = zero_usize_vec(tl);
            }
            if self.flag.marginals {
                self.exp_state = zero_vec(tl);
                self.mexp_state = zero_vec(tl);
            }
            self.cap_items = num_items;
        }
    }

    /// Zero the selected score matrices over the active region; with the
    /// `marginals` capability also zero the marginal expectations and the
    /// log-partition value.
    pub fn reset(&mut self, opts: ResetOpt)
        requires
            old(self).wf(),
        ensures
            final(self).wf(),
            final(self).flag == old(self).flag,
            final(self).num_labels == old(self).num_labels,
            final(self).num_items == old(self).num_items,
            final(self).cap_items == old(self).cap_items,
            final(self).alpha_score@ == old(self).alpha_score@,
            final(self).beta_score@ == old(self).beta_score@,
            final(self).scale_factor@ == old(self).scale_factor@,
            final(self).backward_edge@ == old(self).backward_edge@,
            final(self).exp_state@ == old(self).exp_state@,
            final(self).exp_trans@ == old(self).exp_trans@,
            final(self).state@.len() == old(self).state@.len(),
            forall|i: int|
                0 <= i < final(self).state@.len() ==> final(self).state@[i] == (if opts.state && i
                    < old(self).num_items * old(self).num_labels {
                    F_ZERO
                } else {
                    old(self).state@[i]
                }),
            final(self).trans@.len() == old(self).trans@.len(),
            forall|i: int|
                0 <= i < final(self).trans@.len() ==> final(self).trans@[i] == (if opts.trans {
                    F_ZERO
                } else {
                    old(self).trans@[i]
                }),
            final(self).mexp_state@.len() == old(self).mexp_state@.len(),
            forall|i: int|
                0 <= i < final(self).mexp_state@.len() ==> final(self).mexp_state@[i] == (if i < old(
                    self,
                ).num_items * old(self).num_labels {
                    F_ZERO
                } else {
                    old(self).mexp_state@[i]
                }),
            final(self).mexp_trans@.len() == old(self).mexp_trans@.len(),
            forall|i: int| 0 <= i < final(self).mexp_trans@.len() ==> final(self).mexp_trans@[i] == F_ZERO,
            final(self).log_norm == (if old(self).flag.marginals {
                F_ZERO
            } else {
                old(self).log_norm
            }),
    {
        let t = self.num_items;
        let l = self.num_labels;
        let cap_l = self.state.len();
        let ll = self.trans.len();
        proof {
            lemma_active_region(t as int, self.cap_items as int, l as int);
        }
        let tl = t * l;
        if opts.state {
            zero_range(&mut self.state, tl);
        }
        if opts.trans {
            zero_range(&mut self.trans, ll);
        }
        if self.flag.marginals {
            zero_range(&mut self.mexp_state, tl);
            zero_range(&mut self.mexp_trans, ll);
            self.log_norm = F_ZERO;
        }
    }
}

/// Left-fold binary64 sum of the first `n` elements of `s`, from +0.0.
pub open spec fn fsum_prefix(s: Seq<u64>, n: int) -> u64
    decreases n,
{
    if n <= 0 {
        F_ZERO
    } else {
        fadd(fsum_prefix(s, n - 1), s[n - 1])
    }
}

/// Left-fold binary64 sum of a whole sequence.
pub open spec fn fsum(s: Seq<u64>) -> u64 {
    fsum_prefix(s, s.len() as int)
}

/// The log-domain score of the label path `labels[0..=t]`:
/// `state[0][labels[0]]` followed, for each step, by adding the transition
/// and then the state score, in that order.
pub open spec fn path_score(st: Seq<u64>, tr: Seq<u64>, l: int, labels: Seq<usize>, t: int) -> u64
    decreases t,
{
    if t <= 0 {
        st[labels[0] as int]
    } else {
        fadd(
            fadd(path_score(st, tr, l, labels, t - 1), tr[labels[t - 1] * l + labels[t]]),
            st[t * l + labels[t]],
        )
    }
}

/// The best-predecessor scan for a Viterbi cell `(t, j)`: fold over the
/// first `n` predecessors of the comparison `max < prev[i] + tr[i][j]`;
/// a strict improvement moves the maximum, so on ties the first
/// predecessor encountered wins.  Starts from the most negative finite
/// value with no predecessor chosen.
pub open spec fn vit_best(prev: Seq<u64>, tr: Seq<u64>, l: int, j: int, n: int) -> (u64, int)
    decreases n,
{
    if n <= 0 {
        (F_LOWEST, -1)
    } else {
        let ma = vit_best(prev, tr, l, j, n - 1);
        let sc = fadd(prev[n - 1], tr[(n - 1) * l + j]);
        if flt(ma.0, sc) {
            (sc, n - 1)
        } else {
            ma
        }
    }
}

/// Row `t` of the Viterbi score lattice over state scores `st` and
/// transition scores `tr`, both in the log domain.
pub open spec fn vit_row(st: Seq<u64>, tr: Seq<u64>, l: int, t: int) -> Seq<u64>
    decreases t,
{
    if t <= 0 {
        Seq::new(l as nat, |j: int| st[j])
    } else {
        let prev = vit_row(st, tr, l, t - 1);
        Seq::new(l as nat, |j: int| fadd(vit_best(prev, tr, l, j, l).0, st[t * l + j]))
    }
}

/// The back-pointer stored at `(t, j)` (for `t >= 1`): the winning
/// predecessor, or the prior contents of the cell when no score beat the
/// sentinel.
pub open spec fn vit_bwd_cell(
    st: Seq<u64>,
    tr: Seq<u64>,
    l: int,
    old_bwd: Seq<usize>,
    t: int,
    j: int,
) -> usize {
    let a = vit_best(vit_row(st, tr, l, t - 1), tr, l, j, l).1;
    if a >= 0 {
        a as usize
    } else {
        old_bwd[t * l + j]
    }
}

/// The argmax scan over the last lattice row: fold of `max < last[i]`,
/// first strict improvement wins.
pub open spec fn vit_final(last: Seq<u64>, n: int) -> (u64, int)
    decreases n,
{
    if n <= 0 {
        (F_LOWEST, -1)
    } else {
        let ma = vit_final(last, n - 1);
        if flt(ma.0, last[n - 1]) {
            (last[n - 1], n - 1)
        } else {
            ma
        }
    }
}

/// The label that the Viterbi backtrace assigns to position `t` of a
/// `tt`-item sequence: the argmax of the last row at the end, and the
/// back-pointer of the successor's cell before that.
pub open spec fn vit_label(
    st: Seq<u64>,
    tr: Seq<u64>,
    l: int,
    old_bwd: Seq<usize>,
    tt: int,
    t: int,
) -> usize
    decreases tt - t,
{
    if t >= tt - 1 {
        let ma = vit_final(vit_row(st, tr, l, tt - 1), l);
        if ma.1 >= 0 {
            ma.1 as usize
        } else {
            0
        }
    } else {
        vit_bwd_cell(st, tr, l, old_bwd, t + 1, vit_label(st, tr, l, old_bwd, tt, t + 1) as int)
    }
}

/// Cells of a row-major matrix are ordered by row: a cell of an earlier
/// row lies strictly before any cell of a later row.
pub proof fn lemma_row_lt(t2: int, j2: int, t: int, j: int, l: int)
    by (nonlinear_arith)
    requires
        0 <= t2 < t,
        0 <= j2 < l,
        0 <= j,
    ensures
        t2 * l + j2 < t * l + j,
{
}

/// The Viterbi lattice fill and backtrace over the given state and
/// transition scores (both in the log domain), writing forward scores
/// into `alpha`, back-pointers into `bwd`, and the best label path into
/// `labels`; returns the unnormalized score of that path.
#[verifier::rlimit(30)]
fn viterbi_impl(
    alpha: &mut Vec<u64>,
    bwd: &mut Vec<usize>,
    st: &Vec<u64>,
    tr: &Vec<u64>,
    labels: &mut Vec<usize>,
    l: usize,
    tn: usize,
    cap: usize,
) -> (r: u64)
    requires
        1 <= l,
        1 <= tn <= cap,
        old(alpha)@.len() == cap * l,
        old(bwd)@.len() == cap * l,
        st@.len() == cap * l,
        tr@.len() == l * l,
        old(labels)@.len() == tn,
        forall|k: int| 0 <= k < old(bwd)@.len() ==> old(bwd)@[k] < l,
    ensures
        final(alpha)@.len() == cap * l,
        final(bwd)@.len() == cap * l,
        final(labels)@.len() == tn,
        forall|k: int| 0 <= k < cap * l ==> final(bwd)@[k] < l,
        forall|t: int, j: int|
            0 <= t < tn && 0 <= j < l ==> final(alpha)@[t * l + j] == vit_row(
                st@,
                tr@,
                l as int,
                t,
            )[j],
        forall|k: int| tn * l <= k < cap * l ==> final(alpha)@[k] == old(alpha)@[k],
        forall|t: int, j: int|
            1 <= t < tn && 0 <= j < l ==> final(bwd)@[t * l + j] == vit_bwd_cell(
                st@,
                tr@,
                l as int,
                old(bwd)@,
                t,
                j,
            ),
        forall|k: int| 0 <= k < l ==> final(bwd)@[k] == old(bwd)@[k],
        forall|k: int| tn * l <= k < cap * l ==> final(bwd)@[k] == old(bwd)@[k],
        forall|t: int|
            0 <= t < tn ==> final(labels)@[t] == vit_label(
                st@,
                tr@,
                l as int,
                old(bwd)@,
                tn as int,
                t,
            ),
        r == vit_final(vit_row(st@, tr@, l as int, tn - 1), l as int).0,
{
    let ghost st_s = st@;
    let ghost tr_s = tr@;
    let ghost bwd0 = bwd@;
    let ghost li = l as int;
    let total = alpha.len();
    let ll_total = tr.len();
    // Row 0 of the lattice is the first state-score row.
    let mut j: usize = 0;
    while j < l
        invariant
            j <= l,
            1 <= l,
            1 <= tn <= cap,
            li == l as int,
            cap * l <= usize::MAX,
            alpha@.len() == cap * l,
            st@.len() == cap * l,
            st@ == st_s,
            forall|k: int| 0 <= k < j ==> alpha@[k] == vit_row(st_s, tr_s, li, 0)[k],
            forall|k: int| j <= k < cap * l ==> alpha@[k] == old(alpha)@[k],
        decreases l - j,
    {
        proof {
            lemma_cell_in_matrix(0, j as int, cap as int, li);
            lemma_cell_in_matrix(0, j as int, 1, li);
        }
        alpha.set(j, st[j]);
        j += 1;
    }
    // Rows 1 .. tn: best-predecessor scans with back-pointer recording.
    let mut t: usize = 1;
    while t < tn
        invariant
            1 <= t <= tn,
            1 <= l,
            tn <= cap,
            li == l as int,
            bwd0 == old(bwd)@,
            cap * l <= usize::MAX,
            l * l <= usize::MAX,
            alpha@.len() == cap * l,
            bwd@.len() == cap * l,
            st@.len() == cap * l,
            tr@.len() == l * l,
            st@ == st_s,
            tr@ == tr_s,
            forall|k: int| 0 <= k < cap * l ==> bwd@[k] < l,
            forall|t2: int, j2: int|
                0 <= t2 < t && 0 <= j2 < l ==> alpha@[t2 * li + j2] == vit_row(
                    st_s,
                    tr_s,
                    li,
                    t2,
                )[j2],
            forall|k: int| t * l <= k < cap * l ==> alpha@[k] == old(alpha)@[k],
            forall|t2: int, j2: int|
                1 <= t2 < t && 0 <= j2 < l ==> bwd@[t2 * li + j2] == vit_bwd_cell(
                    st_s,
                    tr_s,
                    li,
                    bwd0,
                    t2,
                    j2,
                ),
            forall|k: int| 0 <= k < l ==> bwd@[k] == bwd0[k],
            forall|k: int| t * l <= k < cap * l ==> bwd@[k] == bwd0[k],
        decreases tn - t,
    {
        let mut j: usize = 0;
        while j < l
            invariant
                1 <= t < tn,
                j <= l,
                1 <= l,
                tn <= cap,
                li == l as int,
                bwd0 == old(bwd)@,
                cap * l <= usize::MAX,
                l * l <= usize::MAX,
                alpha@.len() == cap * l,
                bwd@.len() == cap * l,
                st@.len() == cap * l,
                tr@.len() == l * l,
                st@ == st_s,
                tr@ == tr_s,
                forall|k: int| 0 <= k < cap * l ==> bwd@[k] < l,
                forall|t2: int, j2: int|
                    0 <= t2 < t && 0 <= j2 < l ==> alpha@[t2 * li + j2] == vit_row(
                        st_s,
                        tr_s,
                        li,
                        t2,
                    )[j2],
                forall|j2: int|
                    0 <= j2 < j ==> alpha@[t * li + j2] == vit_row(st_s, tr_s, li, t as int)[j2],
                forall|k: int| t * l + j <= k < cap * l ==> alpha@[k] == old(alpha)@[k],
                forall|t2: int, j2: int|
                    1 <= t2 < t && 0 <= j2 < l ==> bwd@[t2 * li + j2] == vit_bwd_cell(
                        st_s,
                        tr_s,
                        li,
                        bwd0,
                        t2,
                        j2,
                    ),
                forall|j2: int|
                    0 <= j2 < j ==> bwd@[t * li + j2] == vit_bwd_cell(
                        st_s,
                        tr_s,
                        li,
                        bwd0,
                        t as int,
                        j2,
                    ),
                forall|k: int| 0 <= k < l ==> bwd@[k] == bwd0[k],
                forall|k: int| t * l + j <= k < cap * l ==> bwd@[k] == bwd0[k],
            decreases l - j,
        {
            let ghost prev = vit_row(st_s, tr_s, li, t - 1);
            let mut max_score: u64 = F_LOWEST;
            let mut argmax: usize = 0;
            let mut found = false;
            let mut i: usize = 0;
            while i < l
                invariant
                    i <= l,
                    1 <= t < tn,
                    j < l,
                    tn <= cap,
                    li == l as int,
                    cap * l <= usize::MAX,
                    l * l <= usize::MAX,
                    alpha@.len() == cap * l,
                    st@.len() == cap * l,
                    tr@.len() == l * l,
                    st@ == st_s,
                    tr@ == tr_s,
                    prev == vit_row(st_s, tr_s, li, t - 1),
                    forall|t2: int, j2: int|
                        0 <= t2 < t && 0 <= j2 < l ==> alpha@[t2 * li + j2] == vit_row(
                            st_s,
                            tr_s,
                            li,
                            t2,
                        )[j2],
                    max_score == vit_best(prev, tr_s, li, j as int, i as int).0,
                    (if found {
                        argmax as int
                    } else {
                        -1
                    }) == vit_best(prev, tr_s, li, j as int, i as int).1,
                    found ==> argmax < l,
                decreases l - i,
            {
                proof {
                    lemma_cell_in_matrix(t - 1, i as int, cap as int, li);
                    lemma_cell_in_matrix(i as int, j as int, li, li);
                }
                let sc = fadd_x(alpha[(t - 1) * l + i], tr[i * l + j]);
                proof {
                    assert(alpha@[(t - 1) as int * li + i as int] == prev[i as int]);
                }
                if flt_x(max_score, sc) {
                    max_score = sc;
                    argmax = i;
                    found = true;
                }
                i += 1;
            }
            proof {
                lemma_cell_in_matrix(t as int, j as int, cap as int, li);
            }
            if found {
                bwd.set(t * l + j, argmax);
            }
            alpha.set(t * l + j, fadd_x(max_score, st[t * l + j]));
            proof {
                assert forall|t2: int, j2: int| 0 <= t2 < t && 0 <= j2 < l implies alpha@[t2 * li
                    + j2] == vit_row(st_s, tr_s, li, t2)[j2] by {
                    lemma_row_lt(t2, j2, t as int, j as int, li);
                }
                assert forall|t2: int, j2: int| 1 <= t2 < t && 0 <= j2 < l implies bwd@[t2 * li
                    + j2] == vit_bwd_cell(st_s, tr_s, li, bwd0, t2, j2) by {
                    lemma_row_lt(t2, j2, t as int, j as int, li);
                }
                assert forall|k: int| 0 <= k < l implies bwd@[k] == bwd0[k] by {
                    lemma_row_lt(0, k, t as int, j as int, li);
                }
                assert(alpha@[t as int * li + j as int] == vit_row(st_s, tr_s, li, t as int)[j as int]);
            }
            j += 1;
        }
        proof {
            assert((t + 1) * li == t * li + li) by (nonlinear_arith);
        }
        t += 1;
    }
    // Find the last-row node with the maximum score.
    let ghost last = vit_row(st_s, tr_s, li, tn - 1);
    let mut max_score: u64 = F_LOWEST;
    labels.set(tn - 1, 0);
    let mut i: usize = 0;
    while i < l
        invariant
            i <= l,
            1 <= l,
            1 <= tn <= cap,
            li == l as int,
            cap * l <= usize::MAX,
            alpha@.len() == cap * l,
            labels@.len() == tn,
            last == vit_row(st_s, tr_s, li, tn - 1),
            forall|t2: int, j2: int|
                0 <= t2 < tn && 0 <= j2 < l ==> alpha@[t2 * li + j2] == vit_row(
                    st_s,
                    tr_s,
                    li,
                    t2,
                )[j2],
            max_score == vit_final(last, i as int).0,
            labels@[tn - 1] == (if vit_final(last, i as int).1 >= 0 {
                vit_final(last, i as int).1 as usize
            } else {
                0
            }),
            labels@[tn - 1] < l,
        decreases l - i,
    {
        proof {
            lemma_cell_in_matrix(tn - 1, i as int, cap as int, li);
        }
        let prev_score = alpha[(tn - 1) * l + i];
        proof {
            assert(alpha@[(tn - 1) as int * li + i as int] == last[i as int]);
        }
        if flt_x(max_score, prev_score) {
            max_score = prev_score;
            labels.set(tn - 1, i);
        }
        i += 1;
    }
    // Backtrace along the recorded back-pointers.
    let mut t: usize = tn - 1;
    while t > 0
        invariant
            0 <= t <= tn - 1,
            1 <= l,
            1 <= tn <= cap,
            li == l as int,
            bwd0 == old(bwd)@,
            cap * l <= usize::MAX,
            bwd@.len() == cap * l,
            labels@.len() == tn,
            forall|k: int| 0 <= k < cap * l ==> bwd@[k] < l,
            forall|t2: int, j2: int|
                1 <= t2 < tn && 0 <= j2 < l ==> bwd@[t2 * li + j2] == vit_bwd_cell(
                    st_s,
                    tr_s,
                    li,
                    bwd0,
                    t2,
                    j2,
                ),
            forall|t2: int|
                t <= t2 < tn ==> labels@[t2] == vit_label(st_s, tr_s, li, bwd0, tn as int, t2),
            forall|t2: int| t <= t2 < tn ==> labels@[t2] < l,
        decreases t,
    {
        let i2 = labels[t];
        proof {
            lemma_cell_in_matrix(t as int, i2 as int, cap as int, li);
        }
        labels.set(t - 1, bwd[t * l + i2]);
        t -= 1;
    }
    max_score
}

/// The predecessor accumulation for a forward cell `(t, j)`: the left
/// fold over predecessors `i < n` of `acc + prev[i] * et[i][j]`.
pub open spec fn alpha_acc(prev: Seq<u64>, et: Seq<u64>, l: int, j: int, n: int) -> u64
    decreases n,
{
    if n <= 0 {
        F_ZERO
    } else {
        fadd(alpha_acc(prev, et, l, j, n - 1), fmul(prev[n - 1], et[(n - 1) * l + j]))
    }
}

/// Row `t` of the forward lattice before rescaling: the first
/// exponentiated state row at `t = 0`, and the predecessor accumulation
/// multiplied elementwise by the exponentiated state row after that.
pub open spec fn alpha_unscaled(es: Seq<u64>, et: Seq<u64>, l: int, t: int) -> Seq<u64>
    decreases t, 0int,
{
    if t <= 0 {
        Seq::new(l as nat, |j: int| es[j])
    } else {
        let prev = alpha_row(es, et, l, t - 1);
        Seq::new(l as nat, |j: int| fmul(alpha_acc(prev, et, l, j, l), es[t * l + j]))
    }
}

/// The scale factor of forward row `t`: the reciprocal of the row sum,
/// or 1.0 when the row sum compares equal to zero.
pub open spec fn alpha_scale(es: Seq<u64>, et: Seq<u64>, l: int, t: int) -> u64
    decreases t, 1int,
{
    let sum = fsum(alpha_unscaled(es, et, l, t));
    if !fis_zero(sum) {
        fdiv(F_ONE, sum)
    } else {
        F_ONE
    }
}

/// Row `t` of the forward lattice after rescaling.
pub open spec fn alpha_row(es: Seq<u64>, et: Seq<u64>, l: int, t: int) -> Seq<u64>
    decreases t, 2int,
{
    let u = alpha_unscaled(es, et, l, t);
    let sum = fsum(u);
    if !fis_zero(sum) {
        u.map_values(|x: u64| fmul(x, fdiv(F_ONE, sum)))
    } else {
        u
    }
}

/// The rescaled forward recursion: fill `alpha` rows `0..tn` and the
/// scale factors of those rows from the exponentiated state scores `es`
/// and transition scores `et`.
#[verifier::rlimit(30)]
fn alpha_impl(
    alpha: &mut Vec<u64>,
    scale: &mut Vec<u64>,
    es: &Vec<u64>,
    et: &Vec<u64>,
    l: usize,
    tn: usize,
    cap: usize,
)
    requires
        1 <= l,
        1 <= tn <= cap,
        old(alpha)@.len() == cap * l,
        old(scale)@.len() == cap,
        es@.len() == cap * l,
        et@.len() == l * l,
    ensures
        final(alpha)@.len() == cap * l,
        final(scale)@.len() == cap,
        forall|t: int, j: int|
            0 <= t < tn && 0 <= j < l ==> final(alpha)@[t * l + j] == alpha_row(
                es@,
                et@,
                l as int,
                t,
            )[j],
        forall|k: int| tn * l <= k < cap * l ==> final(alpha)@[k] == old(alpha)@[k],
        forall|t: int| 0 <= t < tn ==> final(scale)@[t] == alpha_scale(es@, et@, l as int, t),
        forall|t: int| tn <= t < cap ==> final(scale)@[t] == old(scale)@[t],
{
    let ghost es_s = es@;
    let ghost et_s = et@;
    let ghost li = l as int;
    let total = alpha.len();
    let ll_total = et.len();
    // Row 0: copy the exponentiated state row and take its sum.
    let mut sum: u64 = F_ZERO;
    let mut i: usize = 0;
    while i < l
        invariant
            i <= l,
            1 <= l,
            1 <= tn <= cap,
            li == l as int,
            cap * l <= usize::MAX,
            alpha@.len() == cap * l,
            es@ == es_s,
            es@.len() == cap * l,
            forall|k: int| 0 <= k < i ==> alpha@[k] == alpha_unscaled(es_s, et_s, li, 0)[k],
            forall|k: int| i <= k < cap * l ==> alpha@[k] == old(alpha)@[k],
            sum == fsum_prefix(alpha_unscaled(es_s, et_s, li, 0), i as int),
        decreases l - i,
    {
        proof {
            lemma_cell_in_matrix(0, i as int, cap as int, li);
        }
        let v = es[i];
        alpha.set(i, v);
        sum = fadd_x(sum, v);
        i += 1;
    }
    proof {
        assert(alpha_unscaled(es_s, et_s, li, 0).len() == l);
        assert(sum == fsum(alpha_unscaled(es_s, et_s, li, 0)));
    }
    scale_row(alpha, scale, sum, 0, l, cap, Ghost(alpha_unscaled(es_s, et_s, li, 0)));
    proof {
        assert forall|j: int| 0 <= j < l implies alpha@[0 * li + j] == alpha_row(
            es_s,
            et_s,
            li,
            0,
        )[j] by {}
    }
    // Rows 1 .. tn.
    let mut t: usize = 1;
    while t < tn
        invariant
            1 <= t <= tn,
            1 <= l,
            tn <= cap,
            li == l as int,
            cap * l <= usize::MAX,
            l * l <= usize::MAX,
            alpha@.len() == cap * l,
            scale@.len() == cap,
            es@ == es_s,
            et@ == et_s,
            es@.len() == cap * l,
            et@.len() == l * l,
            forall|t2: int, j2: int|
                0 <= t2 < t && 0 <= j2 < l ==> alpha@[t2 * li + j2] == alpha_row(
                    es_s,
                    et_s,
                    li,
                    t2,
                )[j2],
            forall|k: int| t * l <= k < cap * l ==> alpha@[k] == old(alpha)@[k],
            forall|t2: int| 0 <= t2 < t ==> scale@[t2] == alpha_scale(es_s, et_s, li, t2),
            forall|t2: int| t <= t2 < cap ==> scale@[t2] == old(scale)@[t2],
        decreases tn - t,
    {
        let ghost prev = alpha_row(es_s, et_s, li, t - 1);
        // Zero the row.
        let mut i: usize = 0;
        while i < l
            invariant
                i <= l,
                1 <= t < tn,
                1 <= l,
                tn <= cap,
                li == l as int,
                cap * l <= usize::MAX,
                alpha@.len() == cap * l,
                forall|t2: int, j2: int|
                    0 <= t2 < t && 0 <= j2 < l ==> alpha@[t2 * li + j2] == alpha_row(
                        es_s,
                        et_s,
                        li,
                        t2,
                    )[j2],
                forall|j2: int| 0 <= j2 < i ==> #[trigger] alpha@[t * li + j2] == F_ZERO,
                forall|k: int| t * l + i <= k < cap * l ==> alpha@[k] == old(alpha)@[k],
            decreases l - i,
        {
            proof {
                lemma_cell_in_matrix(t as int, i as int, cap as int, li);
            }
            alpha.set(t * l + i, F_ZERO);
            proof {
                assert forall|t2: int, j2: int| 0 <= t2 < t && 0 <= j2 < l implies alpha@[t2 * li
                    + j2] == alpha_row(es_s, et_s, li, t2)[j2] by {
                    lemma_row_lt(t2, j2, t as int, i as int, li);
                }
            }
            i += 1;
        }
        // Accumulate the predecessor contributions.
        let mut i: usize = 0;
        while i < l
            invariant
                i <= l,
                1 <= t < tn,
                1 <= l,
                tn <= cap,
                li == l as int,
                cap * l <= usize::MAX,
                l * l <= usize::MAX,
                alpha@.len() == cap * l,
                es@ == es_s,
                et@ == et_s,
                es@.len() == cap * l,
                et@.len() == l * l,
                prev == alpha_row(es_s, et_s, li, t - 1),
                forall|t2: int, j2: int|
                    0 <= t2 < t && 0 <= j2 < l ==> alpha@[t2 * li + j2] == alpha_row(
                        es_s,
                        et_s,
                        li,
                        t2,
                    )[j2],
                forall|j2: int|
                    0 <= j2 < l ==> #[trigger] alpha@[t * li + j2] == alpha_acc(prev, et_s, li, j2, i as int),
                forall|k: int| t * l + l <= k < cap * l ==> alpha@[k] == old(alpha)@[k],
            decreases l - i,
        {
            let mut j: usize = 0;
            while j < l
                invariant
                    j <= l,
                    i < l,
                    1 <= t < tn,
                    1 <= l,
                    tn <= cap,
                    li == l as int,
                    cap * l <= usize::MAX,
                    l * l <= usize::MAX,
                    alpha@.len() == cap * l,
                    es@ == es_s,
                    et@ == et_s,
                    es@.len() == cap * l,
                    et@.len() == l * l,
                    prev == alpha_row(es_s, et_s, li, t - 1),
                    forall|t2: int, j2: int|
                        0 <= t2 < t && 0 <= j2 < l ==> alpha@[t2 * li + j2] == alpha_row(
                            es_s,
                            et_s,
                            li,
                            t2,
                        )[j2],
                    forall|j2: int|
                        0 <= j2 < j ==> #[trigger] alpha@[t * li + j2] == alpha_acc(
                            prev,
                            et_s,
                            li,
                            j2,
                            i + 1,
                        ),
                    forall|j2: int|
                        j <= j2 < l ==> #[trigger] alpha@[t * li + j2] == alpha_acc(
                            prev,
                            et_s,
                            li,
                            j2,
                            i as int,
                        ),
                    forall|k: int| t * l + l <= k < cap * l ==> alpha@[k] == old(alpha)@[k],
                decreases l - j,
            {
                proof {
                    lemma_cell_in_matrix(t as int, j as int, cap as int, li);
                    lemma_cell_in_matrix(t - 1, i as int, cap as int, li);
                    lemma_cell_in_matrix(i as int, j as int, li, li);
                    assert(alpha@[(t - 1) as int * li + i as int] == prev[i as int]);
                }
                let term = fmul_x(alpha[(t - 1) * l + i], et[i * l + j]);
                alpha.set(t * l + j, fadd_x(alpha[t * l + j], term));
                proof {
                    assert forall|t2: int, j2: int| 0 <= t2 < t && 0 <= j2 < l implies alpha@[t2
                        * li + j2] == alpha_row(es_s, et_s, li, t2)[j2] by {
                        lemma_row_lt(t2, j2, t as int, j as int, li);
                    }
                    assert forall|j2: int| j < j2 < l implies #[trigger] alpha@[t * li + j2]
                        == alpha_acc(prev, et_s, li, j2, i as int) by {
                        lemma_cell_in_matrix(t as int, j2, cap as int, li);
                    }
                    assert forall|j2: int| 0 <= j2 <= j implies #[trigger] alpha@[t * li + j2]
                        == alpha_acc(prev, et_s, li, j2, i + 1) by {
                        lemma_cell_in_matrix(t as int, j2, cap as int, li);
                    }
                }
                j += 1;
            }
            i += 1;
        }
        // Multiply by the exponentiated state row and take the sum.
        let mut sum: u64 = F_ZERO;
        let mut i: usize = 0;
        while i < l
            invariant
                i <= l,
                1 <= t < tn,
                1 <= l,
                tn <= cap,
                li == l as int,
                cap * l <= usize::MAX,
                l * l <= usize::MAX,
                alpha@.len() == cap * l,
                es@ == es_s,
                et@ == et_s,
                es@.len() == cap * l,
                prev == alpha_row(es_s, et_s, li, t - 1),
                forall|t2: int, j2: int|
                    0 <= t2 < t && 0 <= j2 < l ==> alpha@[t2 * li + j2] == alpha_row(
                        es_s,
                        et_s,
                        li,
                        t2,
                    )[j2],
                forall|j2: int|
                    0 <= j2 < i ==> #[trigger] alpha@[t * li + j2] == alpha_unscaled(es_s, et_s, li, t as int)[j2],
                forall|j2: int|
                    i <= j2 < l ==> #[trigger] alpha@[t * li + j2] == alpha_acc(prev, et_s, li, j2, l as int),
                forall|k: int| t * l + l <= k < cap * l ==> alpha@[k] == old(alpha)@[k],
                sum == fsum_prefix(alpha_unscaled(es_s, et_s, li, t as int), i as int),
            decreases l - i,
        {
            proof {
                lemma_cell_in_matrix(t as int, i as int, cap as int, li);
            }
            let v = fmul_x(alpha[t * l + i], es[t * l + i]);
            alpha.set(t * l + i, v);
            sum = fadd_x(sum, v);
            proof {
                assert forall|t2: int, j2: int| 0 <= t2 < t && 0 <= j2 < l implies alpha@[t2 * li
                    + j2] == alpha_row(es_s, et_s, li, t2)[j2] by {
                    lemma_row_lt(t2, j2, t as int, i as int, li);
                }
                assert forall|j2: int| i < j2 < l implies #[trigger] alpha@[t * li + j2]
                    == alpha_acc(prev, et_s, li, j2, l as int) by {
                    lemma_cell_in_matrix(t as int, j2, cap as int, li);
                }
                assert forall|j2: int| 0 <= j2 <= i implies #[trigger] alpha@[t * li + j2]
                    == alpha_unscaled(es_s, et_s, li, t as int)[j2] by {
                    lemma_cell_in_matrix(t as int, j2, cap as int, li);
                }
            }
            i += 1;
        }
        proof {
            assert(alpha_unscaled(es_s, et_s, li, t as int).len() == l);
            assert(sum == fsum(alpha_unscaled(es_s, et_s, li, t as int)));
        }
        scale_row(alpha, scale, sum, t, l, cap, Ghost(alpha_unscaled(es_s, et_s, li, t as int)));
        proof {
            assert((t + 1) * li == t * li + li) by (nonlinear_arith);
            assert forall|t2: int, j2: int| 0 <= t2 < t + 1 && 0 <= j2 < l implies #[trigger] alpha@[
                t2 * li + j2] == alpha_row(es_s, et_s, li, t2)[j2] by {
                if t2 < t {
                    lemma_row_lt(t2, j2, t as int, 0, li);
                    lemma_cell_in_matrix(t2, j2, cap as int, li);
                } else {
                    assert(alpha@[t as int * li + j2] == alpha_row(es_s, et_s, li, t as int)[j2]);
                }
            }
        }
        t += 1;
    }
}

/// Rescale one forward row by the reciprocal of its sum (or leave it and
/// record a unit scale factor when the sum compares equal to zero).
fn scale_row(
    alpha: &mut Vec<u64>,
    scale: &mut Vec<u64>,
    sum: u64,
    t: usize,
    l: usize,
    cap: usize,
    row_ghost: Ghost<Seq<u64>>,
)
    requires
        1 <= l,
        t < cap,
        old(alpha)@.len() == cap * l,
        old(scale)@.len() == cap,
        row_ghost@.len() == l,
        forall|j: int| 0 <= j < l ==> old(alpha)@[t * l + j] == row_ghost@[j],
        sum == fsum(row_ghost@),
    ensures
        final(alpha)@.len() == cap * l,
        final(scale)@.len() == cap,
        forall|j: int|
            0 <= j < l ==> final(alpha)@[t * l + j] == (if !fis_zero(fsum(row_ghost@)) {
                row_ghost@.map_values(|x: u64| fmul(x, fdiv(F_ONE, fsum(row_ghost@))))[j]
            } else {
                row_ghost@[j]
            }),
        forall|k: int|
            0 <= k < cap * l && !(t * l <= k < t * l + l) ==> final(alpha)@[k] == old(alpha)@[k],
        final(scale)@[t as int] == (if !fis_zero(fsum(row_ghost@)) {
            fdiv(F_ONE, fsum(row_ghost@))
        } else {
            F_ONE
        }),
        forall|k: int| 0 <= k < cap && k != t ==> final(scale)@[k] == old(scale)@[k],
{
    let ghost li = l as int;
    let total = alpha.len();
    proof {
        lemma_cell_in_matrix(t as int, 0, cap as int, li);
        lemma_cell_in_matrix(t as int, l - 1, cap as int, li);
    }
    if !fis_zero_x(sum) {
        let sc = fdiv_x(F_ONE, sum);
        scale.set(t, sc);
        let mut i: usize = 0;
        while i < l
            invariant
                i <= l,
                1 <= l,
                t < cap,
                li == l as int,
                cap * l <= usize::MAX,
                alpha@.len() == cap * l,
                sc == fdiv(F_ONE, fsum(row_ghost@)),
                !fis_zero(fsum(row_ghost@)),
                row_ghost@.len() == l,
                forall|j: int| i <= j < l ==> #[trigger] alpha@[t * li + j] == row_ghost@[j],
                forall|j: int|
                    0 <= j < i ==> #[trigger] alpha@[t * li + j] == fmul(row_ghost@[j], sc),
                forall|k: int|
                    0 <= k < cap * l && !(t * li <= k < t * li + li) ==> alpha@[k] == old(
                        alpha,
                    )@[k],
            decreases l - i,
        {
            proof {
                lemma_cell_in_matrix(t as int, i as int, cap as int, li);
            }
            let idx = t * l + i;
            alpha.set(idx, fmul_x(alpha[idx], sc));
            proof {
                assert(idx == t * li + i);
                assert forall|j: int| i < j < l implies #[trigger] alpha@[t * li + j]
                    == row_ghost@[j] by {
                    lemma_cell_in_matrix(t as int, j, cap as int, li);
                }
                assert forall|j: int| 0 <= j <= i implies #[trigger] alpha@[t * li + j] == fmul(
                    row_ghost@[j],
                    sc,
                ) by {
                    lemma_cell_in_matrix(t as int, j, cap as int, li);
                }
            }
            i += 1;
        }
        proof {
            assert forall|j: int| 0 <= j < l implies #[trigger] alpha@[t * li + j]
                == row_ghost@.map_values(|x: u64| fmul(x, fdiv(F_ONE, fsum(row_ghost@))))[j] by {}
        }
    } else {
        scale.set(t, F_ONE);
    }
}


/// The successor accumulation for a backward cell `(t, i)`: the left fold
/// over successors `j < n` of `acc + et[i][j] * rowv[j]`, where `rowv` is
/// the next backward row multiplied elementwise by the next exponentiated
/// state row.
pub open spec fn beta_acc(rowv: Seq<u64>, et: Seq<u64>, l: int, i: int, n: int) -> u64
    decreases n,
{
    if n <= 0 {
        F_ZERO
    } else {
        fadd(beta_acc(rowv, et, l, i, n - 1), fmul(et[i * l + (n - 1)], rowv[n - 1]))
    }
}

/// Row `t` of the rescaled backward recursion for a `tt`-item sequence:
/// the last row is the last scale factor; every earlier row accumulates
/// the successor contributions and rescales by its own scale factor.
pub open spec fn beta_row(es: Seq<u64>, et: Seq<u64>, scale: Seq<u64>, l: int, tt: int, t: int) -> Seq<u64>
    decreases tt - t,
{
    if t >= tt - 1 {
        Seq::new(l as nat, |i: int| scale[tt - 1])
    } else {
        let nxt = beta_row(es, et, scale, l, tt, t + 1);
        let rowv = Seq::new(l as nat, |j: int| fmul(nxt[j], es[(t + 1) * l + j]));
        Seq::new(l as nat, |i: int| fmul(beta_acc(rowv, et, l, i, l), scale[t]))
    }
}

/// The marginal state expectation of cell `(t, i)`:
/// `alpha[t][i] * beta[t][i] / scale[t]`.
pub open spec fn mexp_state_cell(
    alpha: Seq<u64>,
    beta: Seq<u64>,
    scale: Seq<u64>,
    l: int,
    t: int,
    i: int,
) -> u64 {
    fdiv(fmul(alpha[t * l + i], beta[t * l + i]), scale[t])
}

/// The marginal transition expectation of the pair `(i, j)` after the
/// first `n` positions have been accumulated onto the initial contents:
/// each position `t` adds `alpha[t][i] * et[i][j] * (beta[t+1][j] *
/// es[t+1][j])`.
pub open spec fn mtrans_cell(
    mt0: Seq<u64>,
    alpha: Seq<u64>,
    beta: Seq<u64>,
    es: Seq<u64>,
    et: Seq<u64>,
    l: int,
    i: int,
    j: int,
    n: int,
) -> u64
    decreases n,
{
    if n <= 0 {
        mt0[i * l + j]
    } else {
        let t = n - 1;
        fadd(
            mtrans_cell(mt0, alpha, beta, es, et, l, i, j, n - 1),
            fmul(fmul(alpha[t * l + i], et[i * l + j]), fmul(beta[(t + 1) * l + j], es[(t + 1) * l + j])),
        )
    }
}

/// The rescaled backward recursion: fill `beta` rows `0..tn` from the
/// exponentiated scores and the scale factors computed by the forward
/// recursion, using `row` as scratch space.
#[verifier::rlimit(30)]
fn beta_impl(
    beta: &mut Vec<u64>,
    row: &mut Vec<u64>,
    es: &Vec<u64>,
    et: &Vec<u64>,
    scale: &Vec<u64>,
    l: usize,
    tn: usize,
    cap: usize,
)
    requires
        1 <= l,
        1 <= tn <= cap,
        old(beta)@.len() == cap * l,
        old(row)@.len() == l,
        es@.len() == cap * l,
        et@.len() == l * l,
        scale@.len() == cap,
    ensures
        final(beta)@.len() == cap * l,
        final(row)@.len() == l,
        forall|t: int, i: int|
            0 <= t < tn && 0 <= i < l ==> final(beta)@[t * l + i] == beta_row(
                es@,
                et@,
                scale@,
                l as int,
                tn as int,
                t,
            )[i],
        forall|k: int| tn * l <= k < cap * l ==> final(beta)@[k] == old(beta)@[k],
{
    let ghost es_s = es@;
    let ghost et_s = et@;
    let ghost sc_s = scale@;
    let ghost li = l as int;
    let ghost tni = tn as int;
    let total = beta.len();
    let ll_total = et.len();
    // The last row holds the last scale factor.
    let last = scale[tn - 1];
    let mut i: usize = 0;
    while i < l
        invariant
            i <= l,
            1 <= l,
            1 <= tn <= cap,
            li == l as int,
            tni == tn as int,
            cap * l <= usize::MAX,
            beta@.len() == cap * l,
            last == sc_s[tni - 1],
            sc_s == scale@,
            forall|i2: int|
                0 <= i2 < i ==> #[trigger] beta@[(tni - 1) * li + i2] == beta_row(
                    es_s,
                    et_s,
                    sc_s,
                    li,
                    tni,
                    tni - 1,
                )[i2],
            forall|k: int|
                0 <= k < cap * l && !((tni - 1) * li <= k < (tni - 1) * li + i) ==> beta@[k] == old(
                    beta,
                )@[k],
        decreases l - i,
    {
        proof {
            lemma_cell_in_matrix(tni - 1, i as int, cap as int, li);
        }
        beta.set((tn - 1) * l + i, last);
        i += 1;
    }
    proof {
        assert((tni - 1) * li + li == tni * li) by (nonlinear_arith);
    }
    // Rows tn-2 down to 0.
    let mut ti: usize = tn - 1;
    while ti > 0
        invariant
            0 <= ti <= tn - 1,
            1 <= l,
            1 <= tn <= cap,
            li == l as int,
            tni == tn as int,
            cap * l <= usize::MAX,
            l * l <= usize::MAX,
            beta@.len() == cap * l,
            row@.len() == l,
            es@ == es_s,
            et@ == et_s,
            scale@ == sc_s,
            es@.len() == cap * l,
            et@.len() == l * l,
            scale@.len() == cap,
            forall|t2: int, i2: int|
                ti <= t2 < tn && 0 <= i2 < l ==> #[trigger] beta@[t2 * li + i2] == beta_row(
                    es_s,
                    et_s,
                    sc_s,
                    li,
                    tni,
                    t2,
                )[i2],
            forall|k: int| tn * l <= k < cap * l ==> beta@[k] == old(beta)@[k],
        decreases ti,
    {
        let t = ti - 1;
        let ghost nxt = beta_row(es_s, et_s, sc_s, li, tni, t + 1);
        let ghost rowv = Seq::new(li as nat, |j: int| fmul(nxt[j], es_s[(t + 1) * li + j]));
        // row[j] = beta[t+1][j] * es[t+1][j]
        let mut j: usize = 0;
        while j < l
            invariant
                j <= l,
                0 <= t < tn - 1,
                ti == t + 1,
                1 <= l,
                tn <= cap,
                li == l as int,
                tni == tn as int,
                cap * l <= usize::MAX,
                beta@.len() == cap * l,
                row@.len() == l,
                es@ == es_s,
                es@.len() == cap * l,
                nxt == beta_row(es_s, et_s, sc_s, li, tni, t + 1),
                rowv == Seq::new(li as nat, |j2: int| fmul(nxt[j2], es_s[(t + 1) * li + j2])),
                forall|t2: int, i2: int|
                    ti <= t2 < tn && 0 <= i2 < l ==> #[trigger] beta@[t2 * li + i2] == beta_row(
                        es_s,
                        et_s,
                        sc_s,
                        li,
                        tni,
                        t2,
                    )[i2],
                forall|j2: int| 0 <= j2 < j ==> #[trigger] row@[j2] == rowv[j2],
            decreases l - j,
        {
            proof {
                lemma_cell_in_matrix(t + 1, j as int, cap as int, li);
                assert(beta@[(t + 1) as int * li + j as int] == nxt[j as int]);
            }
            row.set(j, fmul_x(beta[(t + 1) * l + j], es[(t + 1) * l + j]));
            j += 1;
        }
        // beta[t][i] = (sum_j et[i][j] * row[j]) * scale[t]
        let sct = scale[t];
        let mut i: usize = 0;
        while i < l
            invariant
                i <= l,
                0 <= t < tn - 1,
                ti == t + 1,
                1 <= l,
                tn <= cap,
                li == l as int,
                tni == tn as int,
                cap * l <= usize::MAX,
                l * l <= usize::MAX,
                beta@.len() == cap * l,
                row@.len() == l,
                et@ == et_s,
                et@.len() == l * l,
                scale@ == sc_s,
                sct == sc_s[t as int],
                nxt == beta_row(es_s, et_s, sc_s, li, tni, t + 1),
                rowv == Seq::new(li as nat, |j2: int| fmul(nxt[j2], es_s[(t + 1) * li + j2])),
                forall|j2: int| 0 <= j2 < l ==> #[trigger] row@[j2] == rowv[j2],
                forall|t2: int, i2: int|
                    ti <= t2 < tn && 0 <= i2 < l ==> #[trigger] beta@[t2 * li + i2] == beta_row(
                        es_s,
                        et_s,
                        sc_s,
                        li,
                        tni,
                        t2,
                    )[i2],
                forall|i2: int|
                    0 <= i2 < i ==> #[trigger] beta@[t * li + i2] == beta_row(
                        es_s,
                        et_s,
                        sc_s,
                        li,
                        tni,
                        t as int,
                    )[i2],
                forall|k: int| tn * l <= k < cap * l ==> beta@[k] == old(beta)@[k],
            decreases l - i,
        {
            let mut sacc: u64 = F_ZERO;
            let mut j: usize = 0;
            while j < l
                invariant
                    j <= l,
                    i < l,
                    1 <= l,
                    li == l as int,
                    l * l <= usize::MAX,
                    row@.len() == l,
                    et@ == et_s,
                    et@.len() == l * l,
                    rowv.len() == l,
                    forall|j2: int| 0 <= j2 < l ==> #[trigger] row@[j2] == rowv[j2],
                    sacc == beta_acc(rowv, et_s, li, i as int, j as int),
                decreases l - j,
            {
                proof {
                    lemma_cell_in_matrix(i as int, j as int, li, li);
                }
                sacc = fadd_x(sacc, fmul_x(et[i * l + j], row[j]));
                j += 1;
            }
            proof {
                lemma_cell_in_matrix(t as int, i as int, cap as int, li);
            }
            beta.set(t * l + i, fmul_x(sacc, sct));
            proof {
                assert forall|t2: int, i2: int| ti <= t2 < tn && 0 <= i2 < l implies #[trigger] beta@[
                    t2 * li + i2] == beta_row(es_s, et_s, sc_s, li, tni, t2)[i2] by {
                    lemma_row_lt(t as int, i as int, t2, i2, li);
                    lemma_cell_in_matrix(t2, i2, cap as int, li);
                }
                assert forall|i2: int| 0 <= i2 <= i implies #[trigger] beta@[t * li + i2]
                    == beta_row(es_s, et_s, sc_s, li, tni, t as int)[i2] by {
                    lemma_cell_in_matrix(t as int, i2, cap as int, li);
                }
                assert forall|k: int| tn * l <= k < cap * l implies beta@[k] == old(beta)@[k] by {
                    lemma_row_lt(t as int, i as int, tni, 0, li);
                }
            }
            i += 1;
        }
        ti -= 1;
    }
}

/// The marginal expectations: assign the state marginals and accumulate
/// the transition marginals onto the existing contents, using `row` as
/// scratch space.
#[verifier::rlimit(30)]
fn marginals_impl(
    mexp_state: &mut Vec<u64>,
    mexp_trans: &mut Vec<u64>,
    row: &mut Vec<u64>,
    alpha: &Vec<u64>,
    beta: &Vec<u64>,
    scale: &Vec<u64>,
    es: &Vec<u64>,
    et: &Vec<u64>,
    l: usize,
    tn: usize,
    cap: usize,
)
    requires
        1 <= l,
        1 <= tn <= cap,
        old(mexp_state)@.len() == cap * l,
        old(mexp_trans)@.len() == l * l,
        old(row)@.len() == l,
        alpha@.len() == cap * l,
        beta@.len() == cap * l,
        scale@.len() == cap,
        es@.len() == cap * l,
        et@.len() == l * l,
    ensures
        final(mexp_state)@.len() == cap * l,
        final(mexp_trans)@.len() == l * l,
        final(row)@.len() == l,
        forall|t: int, i: int|
            0 <= t < tn && 0 <= i < l ==> final(mexp_state)@[t * l + i] == mexp_state_cell(
                alpha@,
                beta@,
                scale@,
                l as int,
                t,
                i,
            ),
        forall|k: int| tn * l <= k < cap * l ==> final(mexp_state)@[k] == old(mexp_state)@[k],
        forall|i: int, j: int|
            0 <= i < l && 0 <= j < l ==> #[trigger] final(mexp_trans)@[i * l + j] == mtrans_cell(
                old(mexp_trans)@,
                alpha@,
                beta@,
                es@,
                et@,
                l as int,
                i,
                j,
                tn - 1,
            ),
{
    let ghost al_s = alpha@;
    let ghost be_s = beta@;
    let ghost sc_s = scale@;
    let ghost es_s = es@;
    let ghost et_s = et@;
    let ghost mt0 = mexp_trans@;
    let ghost li = l as int;
    let total = mexp_state.len();
    let ll_total = mexp_trans.len();
    // State marginals: one assignment per active cell.
    let mut t: usize = 0;
    while t < tn
        invariant
            t <= tn,
            1 <= l,
            1 <= tn <= cap,
            li == l as int,
            cap * l <= usize::MAX,
            mexp_state@.len() == cap * l,
            alpha@ == al_s,
            beta@ == be_s,
            scale@ == sc_s,
            alpha@.len() == cap * l,
            beta@.len() == cap * l,
            scale@.len() == cap,
            forall|t2: int, i2: int|
                0 <= t2 < t && 0 <= i2 < l ==> #[trigger] mexp_state@[t2 * li + i2]
                    == mexp_state_cell(al_s, be_s, sc_s, li, t2, i2),
            forall|k: int| t * l <= k < cap * l ==> mexp_state@[k] == old(mexp_state)@[k],
        decreases tn - t,
    {
        let sct = scale[t];
        let mut i: usize = 0;
        while i < l
            invariant
                i <= l,
                t < tn,
                1 <= l,
                tn <= cap,
                li == l as int,
                cap * l <= usize::MAX,
                mexp_state@.len() == cap * l,
                alpha@ == al_s,
                beta@ == be_s,
                scale@ == sc_s,
                alpha@.len() == cap * l,
                beta@.len() == cap * l,
                sct == sc_s[t as int],
                forall|t2: int, i2: int|
                    0 <= t2 < t && 0 <= i2 < l ==> #[trigger] mexp_state@[t2 * li + i2]
                        == mexp_state_cell(al_s, be_s, sc_s, li, t2, i2),
                forall|i2: int|
                    0 <= i2 < i ==> #[trigger] mexp_state@[t * li + i2] == mexp_state_cell(
                        al_s,
                        be_s,
                        sc_s,
                        li,
                        t as int,
                        i2,
                    ),
                forall|k: int| t * l + i <= k < cap * l ==> mexp_state@[k] == old(mexp_state)@[k],
            decreases l - i,
        {
            proof {
                lemma_cell_in_matrix(t as int, i as int, cap as int, li);
            }
            let v = fdiv_x(fmul_x(alpha[t * l + i], beta[t * l + i]), sct);
            mexp_state.set(t * l + i, v);
            proof {
                assert forall|t2: int, i2: int| 0 <= t2 < t && 0 <= i2 < l implies #[trigger] mexp_state@[
                    t2 * li + i2] == mexp_state_cell(al_s, be_s, sc_s, li, t2, i2) by {
                    lemma_row_lt(t2, i2, t as int, i as int, li);
                    lemma_cell_in_matrix(t2, i2, cap as int, li);
                }
            }
            i += 1;
        }
        proof {
            assert((t + 1) * li == t * li + li) by (nonlinear_arith);
        }
        t += 1;
    }
    // Transition marginals accumulated over positions 0 .. tn-1.
    let mut t: usize = 0;
    while t < tn - 1
        invariant
            0 <= t <= tn - 1,
            1 <= l,
            1 <= tn <= cap,
            li == l as int,
            cap * l <= usize::MAX,
            l * l <= usize::MAX,
            mexp_trans@.len() == l * l,
            row@.len() == l,
            alpha@ == al_s,
            beta@ == be_s,
            es@ == es_s,
            et@ == et_s,
            alpha@.len() == cap * l,
            beta@.len() == cap * l,
            es@.len() == cap * l,
            et@.len() == l * l,
            forall|i2: int, j2: int|
                0 <= i2 < l && 0 <= j2 < l ==> #[trigger] mexp_trans@[i2 * li + j2] == mtrans_cell(
                    mt0,
                    al_s,
                    be_s,
                    es_s,
                    et_s,
                    li,
                    i2,
                    j2,
                    t as int,
                ),
        decreases tn - 1 - t,
    {
        let ghost rowv = Seq::new(li as nat, |j2: int| fmul(be_s[(t + 1) * li + j2], es_s[(t + 1) * li + j2]));
        let mut j: usize = 0;
        while j < l
            invariant
                j <= l,
                0 <= t < tn - 1,
                1 <= l,
                tn <= cap,
                li == l as int,
                cap * l <= usize::MAX,
                row@.len() == l,
                beta@ == be_s,
                es@ == es_s,
                beta@.len() == cap * l,
                es@.len() == cap * l,
                rowv == Seq::new(li as nat, |j2: int| fmul(be_s[(t + 1) * li + j2], es_s[(t + 1) * li + j2])),
                forall|j2: int| 0 <= j2 < j ==> #[trigger] row@[j2] == rowv[j2],
            decreases l - j,
        {
            proof {
                lemma_cell_in_matrix(t + 1, j as int, cap as int, li);
            }
            row.set(j, fmul_x(beta[(t + 1) * l + j], es[(t + 1) * l + j]));
            j += 1;
        }
        let mut i: usize = 0;
        while i < l
            invariant
                i <= l,
                0 <= t < tn - 1,
                1 <= l,
                tn <= cap,
                li == l as int,
                cap * l <= usize::MAX,
                l * l <= usize::MAX,
                mexp_trans@.len() == l * l,
                row@.len() == l,
                alpha@ == al_s,
                et@ == et_s,
                alpha@.len() == cap * l,
                et@.len() == l * l,
                rowv == Seq::new(li as nat, |j2: int| fmul(be_s[(t + 1) * li + j2], es_s[(t + 1) * li + j2])),
                forall|j2: int| 0 <= j2 < l ==> #[trigger] row@[j2] == rowv[j2],
                forall|i2: int, j2: int|
                    0 <= i2 < i && 0 <= j2 < l ==> #[trigger] mexp_trans@[i2 * li + j2]
                        == mtrans_cell(mt0, al_s, be_s, es_s, et_s, li, i2, j2, t + 1),
                forall|i2: int, j2: int|
                    i <= i2 < l && 0 <= j2 < l ==> #[trigger] mexp_trans@[i2 * li + j2]
                        == mtrans_cell(mt0, al_s, be_s, es_s, et_s, li, i2, j2, t as int),
            decreases l - i,
        {
            let mut j: usize = 0;
            while j < l
                invariant
                    j <= l,
                    i < l,
                    0 <= t < tn - 1,
                    1 <= l,
                    tn <= cap,
                    li == l as int,
                    cap * l <= usize::MAX,
                    l * l <= usize::MAX,
                    mexp_trans@.len() == l * l,
                    row@.len() == l,
                    alpha@ == al_s,
                    et@ == et_s,
                    alpha@.len() == cap * l,
                    et@.len() == l * l,
                    rowv == Seq::new(li as nat, |j2: int| fmul(be_s[(t + 1) * li + j2], es_s[(t + 1) * li + j2])),
                    forall|j2: int| 0 <= j2 < l ==> #[trigger] row@[j2] == rowv[j2],
                    forall|i2: int, j2: int|
                        0 <= i2 < i && 0 <= j2 < l ==> #[trigger] mexp_trans@[i2 * li + j2]
                            == mtrans_cell(mt0, al_s, be_s, es_s, et_s, li, i2, j2, t + 1),
                    forall|j2: int|
                        0 <= j2 < j ==> #[trigger] mexp_trans@[i * li + j2] == mtrans_cell(
                            mt0,
                            al_s,
                            be_s,
                            es_s,
                            et_s,
                            li,
                            i as int,
                            j2,
                            t + 1,
                        ),
                    forall|i2: int, j2: int|
                        i <= i2 < l && 0 <= j2 < l && (i2 > i || j2 >= j) ==> #[trigger] mexp_trans@[
                            i2 * li + j2] == mtrans_cell(mt0, al_s, be_s, es_s, et_s, li, i2, j2, t as int),
                decreases l - j,
            {
                proof {
                    lemma_cell_in_matrix(i as int, j as int, li, li);
                    lemma_cell_in_matrix(t as int, i as int, cap as int, li);
                }
                let term = fmul_x(fmul_x(alpha[t * l + i], et[i * l + j]), row[j]);
                mexp_trans.set(i * l + j, fadd_x(mexp_trans[i * l + j], term));
                proof {
                    assert forall|i2: int, j2: int| 0 <= i2 < i && 0 <= j2 < l implies #[trigger] mexp_trans@[
                        i2 * li + j2] == mtrans_cell(mt0, al_s, be_s, es_s, et_s, li, i2, j2, t + 1) by {
                        lemma_row_lt(i2, j2, i as int, j as int, li);
                        lemma_cell_in_matrix(i2, j2, li, li);
                    }
                    assert forall|j2: int| 0 <= j2 <= j implies #[trigger] mexp_trans@[i * li + j2]
                        == mtrans_cell(mt0, al_s, be_s, es_s, et_s, li, i as int, j2, t + 1) by {
                        lemma_cell_in_matrix(i as int, j2, li, li);
                    }
                    assert forall|i2: int, j2: int| i <= i2 < l && 0 <= j2 < l && (i2 > i || j2 > j)
                        implies #[trigger] mexp_trans@[i2 * li + j2] == mtrans_cell(
                        mt0, al_s, be_s, es_s, et_s, li, i2, j2, t as int) by {
                        if i2 > i {
                            lemma_row_lt(i as int, j as int, i2, j2, li);
                        }
                        lemma_cell_in_matrix(i2, j2, li, li);
                    }
                }
                j += 1;
            }
            i += 1;
        }
        t += 1;
    }
}

/// Copy `vals` into the front of `v`, leaving the tail unchanged.
pub fn copy_range(v: &mut Vec<u64>, vals: &Vec<u64>)
    requires
        vals@.len() <= old(v)@.len(),
    ensures
        final(v)@.len() == old(v)@.len(),
        forall|k: int|
            0 <= k < final(v)@.len() ==> final(v)@[k] == (if k < vals@.len() {
                vals@[k]
            } else {
                old(v)@[k]
            }),
{
    let n = vals.len();
    let mut i: usize = 0;
    while i < n
        invariant
            i <= n,
            n == vals@.len(),
            n <= v@.len(),
            v@.len() == old(v)@.len(),
            forall|k: int| 0 <= k < i ==> v@[k] == vals@[k],
            forall|k: int| i <= k < v@.len() ==> v@[k] == old(v)@[k],
        decreases n - i,
    {
        v.set(i, vals[i]);
        i += 1;
    }
}

/// Zero the first `n` cells of a vector, leaving the rest unchanged.
pub fn zero_range(v: &mut Vec<u64>, n: usize)
    requires
        n <= old(v)@.len(),
    ensures
        final(v)@.len() == old(v)@.len(),
        forall|k: int|
            0 <= k < final(v)@.len() ==> final(v)@[k] == (if k < n {
                F_ZERO
            } else {
                old(v)@[k]
            }),
{
    let mut i: usize = 0;
    while i < n
        invariant
            i <= n,
            n <= v@.len(),
            v@.len() == old(v)@.len(),
            forall|k: int| 0 <= k < i ==> v@[k] == F_ZERO,
            forall|k: int| i <= k < v@.len() ==> v@[k] == old(v)@[k],
        decreases n - i,
    {
        v.set(i, F_ZERO);
        i += 1;
    }
}

/// A vector of `n` binary64 zero bit patterns.
pub fn zero_vec(n: usize) -> (r: Vec<u64>)
    ensures
        r@.len() == n,
        forall|i: int| 0 <= i < n ==> r@[i] == F_ZERO,
{
    let mut v: Vec<u64> = Vec::new();
    let mut i: usize = 0;
    while i < n
        invariant
            i <= n,
            v@.len() == i,
            forall|k: int| 0 <= k < i ==> v@[k] == F_ZERO,
        decreases n - i,
    {
        v.push(F_ZERO);
        i += 1;
    }
    v
}

/// A vector of `n` zero indices.
pub fn zero_usize_vec(n: usize) -> (r: Vec<usize>)
    ensures
        r@.len() == n,
        forall|i: int| 0 <= i < n ==> r@[i] == 0,
{
    let mut v: Vec<usize> = Vec::new();
    let mut i: usize = 0;
    while i < n
        invariant
            i <= n,
            v@.len() == i,
            forall|k: int| 0 <= k < i ==> v@[k] == 0,
        decreases n - i,
    {
        v.push(0);
        i += 1;
    }
    v
}

/// The active region `T * L` lies within an allocation of `cap * L` rows
/// when `T <= cap`.
pub proof fn lemma_active_region(t: int, cap: int, l: int)
    requires
        0 <= t <= cap,
        0 <= l,
    ensures
        t * l <= cap * l,
{
    broadcast use vstd::arithmetic::mul::group_mul_properties;

}

/// A cell `(t, j)` of a row-major `[rows][l]` matrix lies within it.
pub proof fn lemma_cell_in_matrix(t: int, j: int, rows: int, l: int)
    by (nonlinear_arith)
    requires
        0 <= t < rows,
        0 <= j < l,
    ensures
        0 <= t * l + j < rows * l,
        t * l + j <= usize::MAX ==> t * l + j >= 0,
{
}

/// The best-predecessor scan returns either no winner or a predecessor
/// index within range.
pub proof fn lemma_vit_best_bound(prev: Seq<u64>, tr: Seq<u64>, l: int, j: int, n: int)
    ensures
        -1 <= vit_best(prev, tr, l, j, n).1,
        vit_best(prev, tr, l, j, n).1 < n || vit_best(prev, tr, l, j, n).1 == -1,
    decreases n,
{
    if n > 0 {
        lemma_vit_best_bound(prev, tr, l, j, n - 1);
    }
}

/// The final argmax scan returns either no winner or an index within
/// range.
pub proof fn lemma_vit_final_bound(last: Seq<u64>, n: int)
    ensures
        -1 <= vit_final(last, n).1,
        vit_final(last, n).1 < n || vit_final(last, n).1 == -1,
    decreases n,
{
    if n > 0 {
        lemma_vit_final_bound(last, n - 1);
    }
}

/// Viterbi decoding is deterministic: when every best-predecessor scan
/// and the final argmax pick a winner, the label assigned to each
/// position does not depend on the prior contents of the back-pointer
/// matrix, so running the decoder twice over the same scores yields the
/// same path.  (When a scan picks no winner -- which takes a NaN or an
/// overflowed score -- the decoder echoes stale back-pointers and this
/// independence is not promised.)
pub proof fn lemma_viterbi_deterministic(
    st: Seq<u64>,
    tr: Seq<u64>,
    l: int,
    bwd1: Seq<usize>,
    bwd2: Seq<usize>,
    tt: int,
    t: int,
)
    requires
        1 <= l,
        1 <= tt,
        0 <= t < tt,
        forall|t2: int, j: int|
            1 <= t2 < tt && 0 <= j < l ==> (#[trigger] vit_best(
                vit_row(st, tr, l, t2 - 1),
                tr,
                l,
                j,
                l,
            ).1) >= 0,
        vit_final(vit_row(st, tr, l, tt - 1), l).1 >= 0,
    ensures
        vit_label(st, tr, l, bwd1, tt, t) == vit_label(st, tr, l, bwd2, tt, t),
        vit_label(st, tr, l, bwd1, tt, t) < l,
    decreases tt - t,
{
    if t >= tt - 1 {
        lemma_vit_final_bound(vit_row(st, tr, l, tt - 1), l);
    } else {
        lemma_viterbi_deterministic(st, tr, l, bwd1, bwd2, tt, t + 1);
        let lab = vit_label(st, tr, l, bwd1, tt, t + 1) as int;
        assert(vit_best(vit_row(st, tr, l, t), tr, l, lab, l).1 >= 0);
        lemma_vit_best_bound(vit_row(st, tr, l, t), tr, l, lab, l);
    }
}

/// With a single label, the Viterbi path is all zeros: every argmax can
/// only pick label zero, and a scan without a winner echoes a
/// back-pointer that is itself zero.
pub proof fn lemma_single_label_path(
    st: Seq<u64>,
    tr: Seq<u64>,
    bwd: Seq<usize>,
    tt: int,
    t: int,
)
    requires
        1 <= tt,
        0 <= t < tt,
        tt <= bwd.len(),
        forall|k: int| 0 <= k < bwd.len() ==> (#[trigger] bwd[k]) == 0,
    ensures
        vit_label(st, tr, 1, bwd, tt, t) == 0,
    decreases tt - t,
{
    if t >= tt - 1 {
        lemma_vit_final_bound(vit_row(st, tr, 1, tt - 1), 1);
    } else {
        lemma_single_label_path(st, tr, bwd, tt, t + 1);
        lemma_vit_best_bound(vit_row(st, tr, 1, t), tr, 1, 0, 1);
    }
}

/// For a one-item sequence the Viterbi label is the argmax over the
/// first state-score row alone (or label zero when no score beats the
/// sentinel).
pub proof fn lemma_single_item_argmax(st: Seq<u64>, tr: Seq<u64>, l: int, bwd: Seq<usize>)
    requires
        1 <= l,
    ensures
        vit_label(st, tr, l, bwd, 1, 0) == ({
            let ma = vit_final(Seq::new(l as nat, |j: int| st[j]), l);
            if ma.1 >= 0 {
                ma.1 as usize
            } else {
                0
            }
        }),
{
    assert(vit_row(st, tr, l, 0) == Seq::new(l as nat, |j: int| st[j]));
}

} // verus!
