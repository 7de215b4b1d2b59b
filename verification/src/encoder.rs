//! The encoder: glue between the feature store and the context.  It maps
//! a weight vector into the context's state and transition scores, and
//! maps the context's marginal expectations back into a gradient.
//!
//! The objective evaluation of a batch is driven by the caller in steps,
//! because the elementwise exponentials and logarithms between the steps
//! cannot be computed in this crate: set the scores, exponentiate
//! outside, run the forward and backward recursions, hand the logarithms
//! of the scale factors back, and finish with the expectation pass.

use crate::context::{lemma_cell_in_matrix, Crf1dContext, CtxOpt};
use crate::dataset::{Attr, Dataset, Sequence};
use crate::features::{crf1df_generate, crf1df_init_references, ev_ok, evs_ok, fs_fold, gen_events, keep_minfreq, lemma_ds_events_ok, lemma_edge_events_ok, lemma_fold_ok, lemma_keep_ok, lemma_refs_of_ok, refs_of, Feat, FeatType};
use crate::floats::{fadd, fmul, fneg, fsub, fadd_x, fmul_x, fneg_x, fsub_x, F_ZERO};
use vstd::prelude::*;

verus! {

/// One reference-list update pass: add `w[fid] * v` onto the state cell
/// `(t, dst(fid))` for each of the first `r` feature ids of `refs`.
pub open spec fn sscore_refs(
    st: Seq<u64>,
    l: int,
    t: int,
    feats: Seq<Feat>,
    w: Seq<u64>,
    refs: Seq<usize>,
    v: u64,
    r: int,
) -> Seq<u64>
    decreases r,
{
    if r <= 0 {
        st
    } else {
        let prev = sscore_refs(st, l, t, feats, w, refs, v, r - 1);
        let fid = refs[r - 1] as int;
        let c = t * l + feats[fid].dst;
        prev.update(c, fadd(prev[c], fmul(w[fid], v)))
    }
}

/// The state updates of the first `a` attributes of the item at `t`.
pub open spec fn sscore_item(
    st: Seq<u64>,
    l: int,
    t: int,
    feats: Seq<Feat>,
    arefs: Seq<Seq<usize>>,
    w: Seq<u64>,
    item: Seq<Attr>,
    a: int,
) -> Seq<u64>
    decreases a,
{
    if a <= 0 {
        st
    } else {
        let prev = sscore_item(st, l, t, feats, arefs, w, item, a - 1);
        sscore_refs(
            prev,
            l,
            t,
            feats,
            w,
            arefs[item[a - 1].id as int],
            item[a - 1].value,
            arefs[item[a - 1].id as int].len() as int,
        )
    }
}

/// The state updates of the first `n` positions of a sequence.
pub open spec fn sscore_seq(
    st: Seq<u64>,
    l: int,
    feats: Seq<Feat>,
    arefs: Seq<Seq<usize>>,
    w: Seq<u64>,
    s: Sequence,
    n: int,
) -> Seq<u64>
    decreases n,
{
    if n <= 0 {
        st
    } else {
        let prev = sscore_seq(st, l, feats, arefs, w, s, n - 1);
        sscore_item(prev, l, n - 1, feats, arefs, w, s.items@[n - 1]@, s.items@[n - 1]@.len() as int)
    }
}

/// The transition assignments of the reference lists of the first `n`
/// labels: `trans[i][dst(fid)] = w[fid]`.
pub open spec fn tscore_refs(
    tr: Seq<u64>,
    l: int,
    i: int,
    feats: Seq<Feat>,
    w: Seq<u64>,
    refs: Seq<usize>,
    r: int,
) -> Seq<u64>
    decreases r,
{
    if r <= 0 {
        tr
    } else {
        let prev = tscore_refs(tr, l, i, feats, w, refs, r - 1);
        let fid = refs[r - 1] as int;
        prev.update(i * l + feats[fid].dst, w[fid])
    }
}

pub open spec fn tscore_all(
    tr: Seq<u64>,
    l: int,
    feats: Seq<Feat>,
    lrefs: Seq<Seq<usize>>,
    w: Seq<u64>,
    n: int,
) -> Seq<u64>
    decreases n,
{
    if n <= 0 {
        tr
    } else {
        let prev = tscore_all(tr, l, feats, lrefs, w, n - 1);
        tscore_refs(prev, l, n - 1, feats, w, lrefs[n - 1], lrefs[n - 1].len() as int)
    }
}

/// One expectation pass over a reference list: add
/// `mexp_state[t][dst(fid)] * v * weight` onto `g[fid]`.
pub open spec fn mexp_refs(
    g: Seq<u64>,
    l: int,
    t: int,
    feats: Seq<Feat>,
    ms: Seq<u64>,
    refs: Seq<usize>,
    v: u64,
    wt: u64,
    r: int,
) -> Seq<u64>
    decreases r,
{
    if r <= 0 {
        g
    } else {
        let prev = mexp_refs(g, l, t, feats, ms, refs, v, wt, r - 1);
        let fid = refs[r - 1] as int;
        prev.update(
            fid,
            fadd(prev[fid], fmul(fmul(ms[t * l + feats[fid].dst], v), wt)),
        )
    }
}

pub open spec fn mexp_item(
    g: Seq<u64>,
    l: int,
    t: int,
    feats: Seq<Feat>,
    arefs: Seq<Seq<usize>>,
    ms: Seq<u64>,
    item: Seq<Attr>,
    wt: u64,
    a: int,
) -> Seq<u64>
    decreases a,
{
    if a <= 0 {
        g
    } else {
        let prev = mexp_item(g, l, t, feats, arefs, ms, item, wt, a - 1);
        mexp_refs(
            prev,
            l,
            t,
            feats,
            ms,
            arefs[item[a - 1].id as int],
            item[a - 1].value,
            wt,
            arefs[item[a - 1].id as int].len() as int,
        )
    }
}

pub open spec fn mexp_seq(
    g: Seq<u64>,
    l: int,
    feats: Seq<Feat>,
    arefs: Seq<Seq<usize>>,
    ms: Seq<u64>,
    s: Sequence,
    wt: u64,
    n: int,
) -> Seq<u64>
    decreases n,
{
    if n <= 0 {
        g
    } else {
        let prev = mexp_seq(g, l, feats, arefs, ms, s, wt, n - 1);
        mexp_item(prev, l, n - 1, feats, arefs, ms, s.items@[n - 1]@, wt, s.items@[n - 1]@.len() as int)
    }
}

/// The transition-expectation pass: add `mexp_trans[i][dst(fid)] * wt`
/// onto `g[fid]` for every transition reference list.
pub open spec fn mexp_trans_refs(
    g: Seq<u64>,
    l: int,
    i: int,
    feats: Seq<Feat>,
    mt: Seq<u64>,
    refs: Seq<usize>,
    wt: u64,
    r: int,
) -> Seq<u64>
    decreases r,
{
    if r <= 0 {
        g
    } else {
        let prev = mexp_trans_refs(g, l, i, feats, mt, refs, wt, r - 1);
        let fid = refs[r - 1] as int;
        prev.update(fid, fadd(prev[fid], fmul(mt[i * l + feats[fid].dst], wt)))
    }
}

pub open spec fn mexp_trans_all(
    g: Seq<u64>,
    l: int,
    feats: Seq<Feat>,
    lrefs: Seq<Seq<usize>>,
    mt: Seq<u64>,
    wt: u64,
    n: int,
) -> Seq<u64>
    decreases n,
{
    if n <= 0 {
        g
    } else {
        let prev = mexp_trans_all(g, l, feats, lrefs, mt, wt, n - 1);
        mexp_trans_refs(prev, l, n - 1, feats, mt, lrefs[n - 1], wt, lrefs[n - 1].len() as int)
    }
}

/// The first-order linear-chain encoder: the feature table, the reverse
/// indices, and the working context.
pub struct Crf1dEncoder {
    /// Emit zero-frequency state features for every attribute and label.
    pub feature_possible_states: bool,
    /// Emit zero-frequency transition features for every label pair.
    pub feature_possible_transitions: bool,
    /// Drop features rarer than this (binary64 bit pattern).
    pub feature_minfreq: u64,
    pub features: Vec<Feat>,
    pub attrs: Vec<Vec<usize>>,
    pub forward_trans: Vec<Vec<usize>>,
    pub ctx: Crf1dContext,
}

impl Crf1dEncoder {
    /// The reference lists address features of the matching kind and
    /// source, feature ids are in range, destinations are labels, and
    /// the context is allocated for this label count.
    pub open spec fn wf(self) -> bool {
        &&& self.ctx.wf()
        &&& self.ctx.num_labels == self.forward_trans@.len()
        &&& self.ctx.flag.viterbi
        &&& self.ctx.flag.marginals
        &&& forall|k: int|
            0 <= k < self.features@.len() ==> (#[trigger] self.features@[k]).dst
                < self.forward_trans@.len()
        &&& forall|a: int, j: int|
            0 <= a < self.attrs@.len() && 0 <= j < self.attrs@[a]@.len() ==> {
                &&& (#[trigger] self.attrs@[a]@[j]) < self.features@.len()
                &&& self.features@[self.attrs@[a]@[j] as int].ftype == FeatType::FT_STATE
            }
        &&& forall|i: int, j: int|
            0 <= i < self.forward_trans@.len() && 0 <= j < self.forward_trans@[i]@.len() ==> {
                &&& (#[trigger] self.forward_trans@[i]@[j]) < self.features@.len()
                &&& self.features@[self.forward_trans@[i]@[j] as int].ftype == FeatType::FT_TRANS
            }
    }

    pub fn new() -> (r: Crf1dEncoder)
        ensures
            r.wf(),
            r.features@.len() == 0,
            r.forward_trans@.len() == 0,
            r.attrs@.len() == 0,
            !r.feature_possible_states,
            !r.feature_possible_transitions,
            r.feature_minfreq == F_ZERO,
    {
        Crf1dEncoder {
            feature_possible_states: false,
            feature_possible_transitions: false,
            feature_minfreq: F_ZERO,
            features: Vec::new(),
            attrs: Vec::new(),
            forward_trans: Vec::new(),
            ctx: Crf1dContext::new(CtxOpt::all(), 0, 0),
        }
    }

    pub fn num_labels(&self) -> (r: usize)
        ensures
            r == self.forward_trans@.len(),
    {
        self.forward_trans.len()
    }

    pub fn num_features(&self) -> (r: usize)
        ensures
            r == self.features@.len(),
    {
        self.features.len()
    }


    /// Initialize the encoder with a training set: allocate the context
    /// for the label count and the longest sequence, generate the
    /// feature table (transition features for every label pair are
    /// always enumerated), and build the reverse indices.
    pub fn set_data(&mut self, ds: &Dataset)
        requires
            ds.wf(),
            ds.m_labels.view_seq().len() < u32::MAX,
            ds.m_labels.view_seq().len() * ds.m_labels.view_seq().len() <= usize::MAX,
            crate::dataset::spec_max_len(ds.seqs@, ds.seqs@.len() as int)
                * ds.m_labels.view_seq().len() <= usize::MAX,
        ensures
            final(self).wf(),
            final(self).feature_possible_states == old(self).feature_possible_states,
            final(self).feature_possible_transitions,
            final(self).feature_minfreq == old(self).feature_minfreq,
            ({
                let l = ds.m_labels.view_seq().len() as int;
                let evs = gen_events(ds.seqs@, l, old(self).feature_possible_states, true);
                let folded = fs_fold(evs, evs.len() as int);
                final(self).features@ == keep_minfreq(
                    folded,
                    old(self).feature_minfreq,
                    folded.len() as int,
                )
            }),
            final(self).attrs@.len() == ds.m_attrs.view_seq().len(),
            final(self).forward_trans@.len() == ds.m_labels.view_seq().len(),
            forall|a: int|
                0 <= a < final(self).attrs@.len() ==> (#[trigger] final(self).attrs@[a])@
                    == refs_of(
                    final(self).features@,
                    FeatType::FT_STATE,
                    a,
                    final(self).features@.len() as int,
                ),
            forall|i: int|
                0 <= i < final(self).forward_trans@.len() ==> (#[trigger] final(self).forward_trans@[i])@ == refs_of(
                    final(self).features@,
                    FeatType::FT_TRANS,
                    i,
                    final(self).features@.len() as int,
                ),
            final(self).ctx.num_labels == ds.m_labels.view_seq().len(),
            final(self).ctx.cap_items == crate::dataset::spec_max_len(
                ds.seqs@,
                ds.seqs@.len() as int,
            ),
            final(self).ctx.spec_num_items_is_zero(),
    {
        let l = ds.num_labels();
        let a_count = ds.num_attrs();
        let max_t = ds.max_seq_length();
        self.ctx = Crf1dContext::new(CtxOpt::all(), l, max_t);
        self.feature_possible_transitions = true;
        self.features = crf1df_generate(
            ds,
            self.feature_possible_states,
            true,
            self.feature_minfreq,
        );
        proof {
            let li = l as int;
            let ai = a_count as int;
            let evs = gen_events(ds.seqs@, li, self.feature_possible_states, true);
            lemma_ds_events_ok(*ds, self.feature_possible_states, ds.seqs@.len() as int);
            lemma_edge_events_ok(li, li * li, ai);
            assert(evs_ok(evs, li, ai)) by {
                assert forall|k: int| 0 <= k < evs.len() implies ev_ok(#[trigger] evs[k], li, ai) by {
                    let dse = crate::features::ds_events(
                        ds.seqs@,
                        li,
                        self.feature_possible_states,
                        ds.seqs@.len() as int,
                    );
                    if k < dse.len() {
                        assert(evs[k] == dse[k]);
                    } else {
                        assert(evs[k] == crate::features::edge_events(li, li * li)[k - dse.len()]);
                    }
                }
            }
            lemma_fold_ok(evs, evs.len() as int, li, ai);
            lemma_keep_ok(
                fs_fold(evs, evs.len() as int),
                self.feature_minfreq,
                fs_fold(evs, evs.len() as int).len() as int,
                li,
                ai,
            );
        }
        let refs = crf1df_init_references(&self.features, a_count, l);
        self.attrs = refs.0;
        self.forward_trans = refs.1;
        let kf = self.features.len();
        proof {
            assert(self.features@.len() <= usize::MAX);
            assert forall|a: int, j: int|
                0 <= a < self.attrs@.len() && 0 <= j < self.attrs@[a]@.len() implies {
                &&& (#[trigger] self.attrs@[a]@[j]) < self.features@.len()
                &&& self.features@[self.attrs@[a]@[j] as int].ftype == FeatType::FT_STATE
            } by {
                lemma_refs_of_ok(self.features@, FeatType::FT_STATE, a, self.features@.len() as int);
            }
            assert forall|i: int, j: int|
                0 <= i < self.forward_trans@.len() && 0 <= j < self.forward_trans@[i]@.len() implies {
                &&& (#[trigger] self.forward_trans@[i]@[j]) < self.features@.len()
                &&& self.features@[self.forward_trans@[i]@[j] as int].ftype == FeatType::FT_TRANS
            } by {
                lemma_refs_of_ok(self.features@, FeatType::FT_TRANS, i, self.features@.len() as int);
            }
        }
    }

    /// Add the weighted state-feature contributions of a sequence onto
    /// the context's state matrix.
    pub fn state_score(&mut self, seq: &Sequence, w: &Vec<u64>)
        requires
            old(self).wf(),
            w@.len() == old(self).features@.len(),
            seq.items@.len() == old(self).ctx.num_items,
            forall|t: int, a: int|
                0 <= t < seq.items@.len() && 0 <= a < seq.items@[t]@.len() ==> (
                #[trigger] seq.items@[t]@[a]).id < old(self).attrs@.len(),
        ensures
            final(self).wf(),
            *final(self) == (Crf1dEncoder {
                ctx: final(self).ctx,
                ..*old(self)
            }),
            final(self).ctx == (Crf1dContext {
                state: final(self).ctx.state,
                ..old(self).ctx
            }),
            final(self).ctx.state@ == sscore_seq(
                old(self).ctx.state@,
                old(self).ctx.num_labels as int,
                old(self).features@,
                old(self).attrs@.map_values(|v: Vec<usize>| v@),
                w@,
                *seq,
                seq.items@.len() as int,
            ),
    {
        let ghost feats = self.features@;
        let ghost arefs = self.attrs@.map_values(|v: Vec<usize>| v@);
        let ghost li = self.ctx.num_labels as int;
        let ghost st0 = self.ctx.state@;
        let l = self.ctx.num_labels;
        let cap = self.ctx.cap_items;
        let total = self.ctx.state.len();
        let tn = seq.items.len();
        let mut t: usize = 0;
        while t < tn
            invariant
                t <= tn,
                self.wf(),
                tn == seq.items@.len(),
                tn == self.ctx.num_items,
                w@.len() == self.features@.len(),
                forall|t2: int, a: int|
                    0 <= t2 < seq.items@.len() && 0 <= a < seq.items@[t2]@.len() ==> (
                    #[trigger] seq.items@[t2]@[a]).id < self.attrs@.len(),
                feats == self.features@,
                arefs == self.attrs@.map_values(|v: Vec<usize>| v@),
                li == self.ctx.num_labels as int,
                l == self.ctx.num_labels,
                cap == self.ctx.cap_items,
                total == self.ctx.state@.len(),
                cap * l <= usize::MAX,
                *self == (Crf1dEncoder { ctx: self.ctx, ..*old(self) }),
                self.ctx == (Crf1dContext { state: self.ctx.state, ..old(self).ctx }),
                self.ctx.state@ == sscore_seq(st0, li, feats, arefs, w@, *seq, t as int),
            decreases tn - t,
        {
            let item = &seq.items[t];
            let an = item.len();
            let ghost st_t = self.ctx.state@;
            let mut a: usize = 0;
            while a < an
                invariant
                    a <= an,
                    t < tn,
                    self.wf(),
                    tn == seq.items@.len(),
                    tn == self.ctx.num_items,
                    w@.len() == self.features@.len(),
                    item == seq.items@[t as int],
                    an == item@.len(),
                    forall|t2: int, a2: int|
                        0 <= t2 < seq.items@.len() && 0 <= a2 < seq.items@[t2]@.len() ==> (
                        #[trigger] seq.items@[t2]@[a2]).id < self.attrs@.len(),
                    feats == self.features@,
                    arefs == self.attrs@.map_values(|v: Vec<usize>| v@),
                    li == self.ctx.num_labels as int,
                    l == self.ctx.num_labels,
                    cap == self.ctx.cap_items,
                    total == self.ctx.state@.len(),
                    cap * l <= usize::MAX,
                    *self == (Crf1dEncoder { ctx: self.ctx, ..*old(self) }),
                    self.ctx == (Crf1dContext { state: self.ctx.state, ..old(self).ctx }),
                    self.ctx.state@ == sscore_item(st_t, li, t as int, feats, arefs, w@, item@, a as int),
                    st_t == sscore_seq(st0, li, feats, arefs, w@, *seq, t as int),
                decreases an - a,
            {
                let attr = &item[a];
                let aid = attr.id as usize;
                let refs_len = self.attrs[aid].len();
                let ghost base = self.ctx.state@;
                let mut r: usize = 0;
                while r < refs_len
                    invariant
                        r <= refs_len,
                        t < tn,
                        a < an,
                        self.wf(),
                        tn == self.ctx.num_items,
                        w@.len() == self.features@.len(),
                        item == seq.items@[t as int],
                        an == item@.len(),
                        attr == item@[a as int],
                        aid == attr.id as usize,
                        aid < self.attrs@.len(),
                        refs_len == self.attrs@[aid as int]@.len(),
                        feats == self.features@,
                        arefs == self.attrs@.map_values(|v: Vec<usize>| v@),
                        li == self.ctx.num_labels as int,
                        l == self.ctx.num_labels,
                        cap == self.ctx.cap_items,
                        total == self.ctx.state@.len(),
                        cap * l <= usize::MAX,
                        *self == (Crf1dEncoder { ctx: self.ctx, ..*old(self) }),
                        self.ctx == (Crf1dContext { state: self.ctx.state, ..old(self).ctx }),
                        self.ctx.state@ == sscore_refs(
                            base,
                            li,
                            t as int,
                            feats,
                            w@,
                            arefs[aid as int],
                            attr.value,
                            r as int,
                        ),
                        base == sscore_item(st_t, li, t as int, feats, arefs, w@, item@, a as int),
                    decreases refs_len - r,
                {
                    let fid = self.attrs[aid][r];
                    let dst = self.features[fid].dst as usize;
                    proof {
                        lemma_cell_in_matrix(t as int, dst as int, cap as int, li);
                    }
                    let c = t * l + dst;
                    let nv = fadd_x(self.ctx.state[c], fmul_x(w[fid], attr.value));
                    self.ctx.state.set(c, nv);
                    r += 1;
                }
                a += 1;
            }
            t += 1;
        }
    }

    /// Assign the transition-feature weights into the context's
    /// transition matrix.
    pub fn transition_score(&mut self, w: &Vec<u64>)
        requires
            old(self).wf(),
            w@.len() == old(self).features@.len(),
        ensures
            final(self).wf(),
            *final(self) == (Crf1dEncoder {
                ctx: final(self).ctx,
                ..*old(self)
            }),
            final(self).ctx == (Crf1dContext {
                trans: final(self).ctx.trans,
                ..old(self).ctx
            }),
            final(self).ctx.trans@ == tscore_all(
                old(self).ctx.trans@,
                old(self).ctx.num_labels as int,
                old(self).features@,
                old(self).forward_trans@.map_values(|v: Vec<usize>| v@),
                w@,
                old(self).forward_trans@.len() as int,
            ),
    {
        let ghost feats = self.features@;
        let ghost lrefs = self.forward_trans@.map_values(|v: Vec<usize>| v@);
        let ghost li = self.ctx.num_labels as int;
        let ghost tr0 = self.ctx.trans@;
        let l = self.ctx.num_labels;
        let ll = self.ctx.trans.len();
        let n = self.forward_trans.len();
        let mut i: usize = 0;
        while i < n
            invariant
                i <= n,
                self.wf(),
                n == self.forward_trans@.len(),
                n == self.ctx.num_labels,
                w@.len() == self.features@.len(),
                feats == self.features@,
                lrefs == self.forward_trans@.map_values(|v: Vec<usize>| v@),
                li == self.ctx.num_labels as int,
                l == self.ctx.num_labels,
                ll == self.ctx.trans@.len(),
                l * l <= usize::MAX,
                *self == (Crf1dEncoder { ctx: self.ctx, ..*old(self) }),
                self.ctx == (Crf1dContext { trans: self.ctx.trans, ..old(self).ctx }),
                self.ctx.trans@ == tscore_all(tr0, li, feats, lrefs, w@, i as int),
            decreases n - i,
        {
            let refs_len = self.forward_trans[i].len();
            let ghost base = self.ctx.trans@;
            let mut r: usize = 0;
            while r < refs_len
                invariant
                    r <= refs_len,
                    i < n,
                    self.wf(),
                    n == self.forward_trans@.len(),
                    n == self.ctx.num_labels,
                    w@.len() == self.features@.len(),
                    refs_len == self.forward_trans@[i as int]@.len(),
                    feats == self.features@,
                    lrefs == self.forward_trans@.map_values(|v: Vec<usize>| v@),
                    li == self.ctx.num_labels as int,
                    l == self.ctx.num_labels,
                    ll == self.ctx.trans@.len(),
                    l * l <= usize::MAX,
                    *self == (Crf1dEncoder { ctx: self.ctx, ..*old(self) }),
                    self.ctx == (Crf1dContext { trans: self.ctx.trans, ..old(self).ctx }),
                    self.ctx.trans@ == tscore_refs(
                        base,
                        li,
                        i as int,
                        feats,
                        w@,
                        lrefs[i as int],
                        r as int,
                    ),
                    base == tscore_all(tr0, li, feats, lrefs, w@, i as int),
                decreases refs_len - r,
            {
                let fid = self.forward_trans[i][r];
                let dst = self.features[fid].dst as usize;
                proof {
                    lemma_cell_in_matrix(i as int, dst as int, li, li);
                }
                self.ctx.trans.set(i * l + dst, w[fid]);
                r += 1;
            }
            i += 1;
        }
    }

    /// Accumulate the per-feature model expectations of a sequence onto
    /// the gradient vector `g`.
    pub fn model_expectation(&self, seq: &Sequence, g: &mut Vec<u64>, weight: u64)
        requires
            self.wf(),
            old(g)@.len() == self.features@.len(),
            seq.items@.len() == self.ctx.num_items,
            forall|t: int, a: int|
                0 <= t < seq.items@.len() && 0 <= a < seq.items@[t]@.len() ==> (
                #[trigger] seq.items@[t]@[a]).id < self.attrs@.len(),
        ensures
            final(g)@ == mexp_trans_all(
                mexp_seq(
                    old(g)@,
                    self.ctx.num_labels as int,
                    self.features@,
                    self.attrs@.map_values(|v: Vec<usize>| v@),
                    self.ctx.mexp_state@,
                    *seq,
                    weight,
                    seq.items@.len() as int,
                ),
                self.ctx.num_labels as int,
                self.features@,
                self.forward_trans@.map_values(|v: Vec<usize>| v@),
                self.ctx.mexp_trans@,
                weight,
                self.forward_trans@.len() as int,
            ),
    {
        let ghost feats = self.features@;
        let ghost arefs = self.attrs@.map_values(|v: Vec<usize>| v@);
        let ghost lrefs = self.forward_trans@.map_values(|v: Vec<usize>| v@);
        let ghost li = self.ctx.num_labels as int;
        let ghost g0 = old(g)@;
        let l = self.ctx.num_labels;
        let cap = self.ctx.cap_items;
        let total = self.ctx.mexp_state.len();
        let ll = self.ctx.mexp_trans.len();
        let tn = seq.items.len();
        let mut t: usize = 0;
        while t < tn
            invariant
                t <= tn,
                self.wf(),
                tn == seq.items@.len(),
                tn == self.ctx.num_items,
                g@.len() == self.features@.len(),
                forall|t2: int, a: int|
                    0 <= t2 < seq.items@.len() && 0 <= a < seq.items@[t2]@.len() ==> (
                    #[trigger] seq.items@[t2]@[a]).id < self.attrs@.len(),
                feats == self.features@,
                arefs == self.attrs@.map_values(|v: Vec<usize>| v@),
                li == self.ctx.num_labels as int,
                l == self.ctx.num_labels,
                cap == self.ctx.cap_items,
                total == self.ctx.mexp_state@.len(),
                cap * l <= usize::MAX,
                g@ == mexp_seq(g0, li, feats, arefs, self.ctx.mexp_state@, *seq, weight, t as int),
            decreases tn - t,
        {
            let item = &seq.items[t];
            let an = item.len();
            let ghost g_t = g@;
            let mut a: usize = 0;
            while a < an
                invariant
                    a <= an,
                    t < tn,
                    self.wf(),
                    tn == seq.items@.len(),
                    tn == self.ctx.num_items,
                    g@.len() == self.features@.len(),
                    item == seq.items@[t as int],
                    an == item@.len(),
                    forall|t2: int, a2: int|
                        0 <= t2 < seq.items@.len() && 0 <= a2 < seq.items@[t2]@.len() ==> (
                        #[trigger] seq.items@[t2]@[a2]).id < self.attrs@.len(),
                    feats == self.features@,
                    arefs == self.attrs@.map_values(|v: Vec<usize>| v@),
                    li == self.ctx.num_labels as int,
                    l == self.ctx.num_labels,
                    cap == self.ctx.cap_items,
                    total == self.ctx.mexp_state@.len(),
                    cap * l <= usize::MAX,
                    g@ == mexp_item(g_t, li, t as int, feats, arefs, self.ctx.mexp_state@, item@, weight, a as int),
                    g_t == mexp_seq(g0, li, feats, arefs, self.ctx.mexp_state@, *seq, weight, t as int),
                decreases an - a,
            {
                let attr = &item[a];
                let aid = attr.id as usize;
                let refs_len = self.attrs[aid].len();
                let ghost base = g@;
                let mut r: usize = 0;
                while r < refs_len
                    invariant
                        r <= refs_len,
                        t < tn,
                        a < an,
                        self.wf(),
                        tn == self.ctx.num_items,
                        g@.len() == self.features@.len(),
                        item == seq.items@[t as int],
                        attr == item@[a as int],
                        aid == attr.id as usize,
                        aid < self.attrs@.len(),
                        refs_len == self.attrs@[aid as int]@.len(),
                        feats == self.features@,
                        arefs == self.attrs@.map_values(|v: Vec<usize>| v@),
                        li == self.ctx.num_labels as int,
                        l == self.ctx.num_labels,
                        cap == self.ctx.cap_items,
                        total == self.ctx.mexp_state@.len(),
                        cap * l <= usize::MAX,
                        g@ == mexp_refs(
                            base,
                            li,
                            t as int,
                            feats,
                            self.ctx.mexp_state@,
                            arefs[aid as int],
                            attr.value,
                            weight,
                            r as int,
                        ),
                        base == mexp_item(g_t, li, t as int, feats, arefs, self.ctx.mexp_state@, item@, weight, a as int),
                    decreases refs_len - r,
                {
                    let fid = self.attrs[aid][r];
                    let dst = self.features[fid].dst as usize;
                    proof {
                        lemma_cell_in_matrix(t as int, dst as int, cap as int, li);
                    }
                    let m = self.ctx.mexp_state[t * l + dst];
                    let nv = fadd_x(g[fid], fmul_x(fmul_x(m, attr.value), weight));
                    g.set(fid, nv);
                    r += 1;
                }
                a += 1;
            }
            t += 1;
        }
        // Transition expectations.
        let ghost g_s = g@;
        let n = self.forward_trans.len();
        let mut i: usize = 0;
        while i < n
            invariant
                i <= n,
                self.wf(),
                n == self.forward_trans@.len(),
                n == self.ctx.num_labels,
                g@.len() == self.features@.len(),
                feats == self.features@,
                lrefs == self.forward_trans@.map_values(|v: Vec<usize>| v@),
                li == self.ctx.num_labels as int,
                l == self.ctx.num_labels,
                ll == self.ctx.mexp_trans@.len(),
                l * l <= usize::MAX,
                g@ == mexp_trans_all(g_s, li, feats, lrefs, self.ctx.mexp_trans@, weight, i as int),
            decreases n - i,
        {
            let refs_len = self.forward_trans[i].len();
            let ghost base = g@;
            let mut r: usize = 0;
            while r < refs_len
                invariant
                    r <= refs_len,
                    i < n,
                    self.wf(),
                    n == self.forward_trans@.len(),
                    n == self.ctx.num_labels,
                    g@.len() == self.features@.len(),
                    refs_len == self.forward_trans@[i as int]@.len(),
                    feats == self.features@,
                    lrefs == self.forward_trans@.map_values(|v: Vec<usize>| v@),
                    li == self.ctx.num_labels as int,
                    l == self.ctx.num_labels,
                    ll == self.ctx.mexp_trans@.len(),
                    l * l <= usize::MAX,
                    g@ == mexp_trans_refs(
                        base,
                        li,
                        i as int,
                        feats,
                        self.ctx.mexp_trans@,
                        lrefs[i as int],
                        weight,
                        r as int,
                    ),
                    base == mexp_trans_all(g_s, li, feats, lrefs, self.ctx.mexp_trans@, weight, i as int),
                decreases refs_len - r,
            {
                let fid = self.forward_trans[i][r];
                let dst = self.features[fid].dst as usize;
                proof {
                    lemma_cell_in_matrix(i as int, dst as int, li, li);
                }
                let m = self.ctx.mexp_trans[i * l + dst];
                let nv = fadd_x(g[fid], fmul_x(m, weight));
                g.set(fid, nv);
                r += 1;
            }
            i += 1;
        }
    }
}

/// The gradient initialized with the negated observation expectations:
/// `g[k] = -freq(k)`.
pub open spec fn grad_init_spec(feats: Seq<Feat>) -> Seq<u64> {
    Seq::new(feats.len(), |k: int| fneg(feats[k].freq))
}

/// Overwrite `g` with the negated empirical frequency of every feature.
pub fn gradient_init(g: &mut Vec<u64>, feats: &Vec<Feat>)
    requires
        old(g)@.len() == feats@.len(),
    ensures
        final(g)@ =~= grad_init_spec(feats@),
{
    let n = feats.len();
    let mut k: usize = 0;
    while k < n
        invariant
            k <= n,
            n == feats@.len(),
            g@.len() == n,
            forall|k2: int| 0 <= k2 < k ==> g@[k2] == fneg(feats@[k2].freq),
            forall|k2: int| k <= k2 < n ==> g@[k2] == old(g)@[k2],
        decreases n - k,
    {
        g.set(k, fneg_x(feats[k].freq));
        k += 1;
    }
}

/// One log-likelihood accumulation step:
/// `logl + (score - log_norm) * weight`.
pub fn logl_step(logl: u64, score_bits: u64, log_norm: u64, weight: u64) -> (r: u64)
    ensures
        r == fadd(logl, fmul(fsub(score_bits, log_norm), weight)),
{
    fadd_x(logl, fmul_x(fsub_x(score_bits, log_norm), weight))
}

} // verus!
