//! The tagger: applies a loaded model to new sequences.  Construction
//! seeds the transition scores from the model once; per sequence the
//! state scores are set from the model's state features and the Viterbi
//! algorithm recovers the best label path.  Tagging works entirely in
//! the log domain and needs no exponentials.

use crate::context::{
    lemma_cell_in_matrix, vit_best, vit_final, vit_label, vit_row, Crf1dContext, CtxOpt, ResetOpt,
};
use crate::dataset::Sequence;
use crate::floats::{fadd, fmul, fsub, fadd_x, fmul_x, fsub_x, F_ZERO};
use crate::model::{Crf1dModel, Feature};
use vstd::prelude::*;

verus! {

/// The transition-score seeding of the first `r` features of one label's
/// reference list: `trans[i][dst(fid)] = weight(fid)`.
pub open spec fn tg_trans_refs(
    tr: Seq<u64>,
    l: int,
    i: int,
    feats: Seq<Feature>,
    refs: Seq<usize>,
    r: int,
) -> Seq<u64>
    decreases r,
{
    if r <= 0 {
        tr
    } else {
        let prev = tg_trans_refs(tr, l, i, feats, refs, r - 1);
        let fid = refs[r - 1] as int;
        prev.update(i * l + feats[fid].dst, feats[fid].weight)
    }
}

/// The transition-score seeding over the first `n` labels.
pub open spec fn tg_trans_all(
    tr: Seq<u64>,
    l: int,
    feats: Seq<Feature>,
    lrefs: Seq<Seq<usize>>,
    n: int,
) -> Seq<u64>
    decreases n,
{
    if n <= 0 {
        tr
    } else {
        let prev = tg_trans_all(tr, l, feats, lrefs, n - 1);
        tg_trans_refs(prev, l, n - 1, feats, lrefs[n - 1], lrefs[n - 1].len() as int)
    }
}

/// One state-score pass over a reference list:
/// `state[t][dst(fid)] += weight(fid) * value`.
pub open spec fn tg_state_refs(
    st: Seq<u64>,
    l: int,
    t: int,
    feats: Seq<Feature>,
    refs: Seq<usize>,
    v: u64,
    r: int,
) -> Seq<u64>
    decreases r,
{
    if r <= 0 {
        st
    } else {
        let prev = tg_state_refs(st, l, t, feats, refs, v, r - 1);
        let fid = refs[r - 1] as int;
        let c = t * l + feats[fid].dst;
        prev.update(c, fadd(prev[c], fmul(feats[fid].weight, v)))
    }
}

/// The state updates of the first `a` attributes of the item at `t`;
/// an attribute id outside the model's attribute table contributes
/// nothing.
pub open spec fn tg_state_item(
    st: Seq<u64>,
    l: int,
    t: int,
    feats: Seq<Feature>,
    arefs: Seq<Seq<usize>>,
    item: Seq<crate::dataset::Attr>,
    a: int,
) -> Seq<u64>
    decreases a,
{
    if a <= 0 {
        st
    } else {
        let prev = tg_state_item(st, l, t, feats, arefs, item, a - 1);
        let aid = item[a - 1].id as int;
        if aid < arefs.len() {
            tg_state_refs(
                prev,
                l,
                t,
                feats,
                arefs[aid],
                item[a - 1].value,
                arefs[aid].len() as int,
            )
        } else {
            prev
        }
    }
}

/// The state updates of the first `n` positions of a sequence.
pub open spec fn tg_state_seq(
    st: Seq<u64>,
    l: int,
    feats: Seq<Feature>,
    arefs: Seq<Seq<usize>>,
    s: Sequence,
    n: int,
) -> Seq<u64>
    decreases n,
{
    if n <= 0 {
        st
    } else {
        let prev = tg_state_seq(st, l, feats, arefs, s, n - 1);
        tg_state_item(prev, l, n - 1, feats, arefs, s.items@[n - 1]@, s.items@[n - 1]@.len() as int)
    }
}

/// A tagger: a borrowed model and an owned working context.
pub struct Crf1dTagger<'a> {
    pub model: &'a Crf1dModel,
    pub ctx: Crf1dContext,
    pub num_labels: usize,
    pub num_attrs: usize,
}

impl<'a> Crf1dTagger<'a> {
    pub open spec fn wf(self) -> bool {
        &&& self.model.wf()
        &&& self.ctx.wf()
        &&& self.ctx.flag.viterbi
        &&& self.ctx.flag.marginals
        &&& self.ctx.num_labels == self.model.labels.view_seq().len()
        &&& self.num_labels == self.model.labels.view_seq().len()
        &&& self.num_attrs == self.model.attrs.view_seq().len()
    }

    /// Make a tagger for a model: allocate a context over the model's
    /// label alphabet and seed the transition matrix from the model's
    /// transition features.
    pub fn new(model: &'a Crf1dModel) -> (r: Crf1dTagger<'a>)
        requires
            model.wf(),
            model.labels.view_seq().len() * model.labels.view_seq().len() <= usize::MAX,
        ensures
            r.wf(),
            r.model == model,
            r.ctx.spec_num_items_is_zero(),
            r.ctx.cap_items == 0,
            r.ctx.trans@ == tg_trans_all(
                Seq::new(
                    (model.labels.view_seq().len() * model.labels.view_seq().len()) as nat,
                    |k: int| F_ZERO,
                ),
                model.labels.view_seq().len() as int,
                model.features@,
                model.label_refs@.map_values(|v: Vec<usize>| v@),
                model.labels.view_seq().len() as int,
            ),
    {
        let l = model.num_labels();
        let mut ctx = Crf1dContext::new(CtxOpt::all(), l, 0);
        let ghost feats = model.features@;
        let ghost lrefs = model.label_refs@.map_values(|v: Vec<usize>| v@);
        let ghost li = l as int;
        let ghost tr0 = ctx.trans@;
        let ll = ctx.trans.len();
        let mut i: usize = 0;
        while i < l
            invariant
                i <= l,
                model.wf(),
                l == model.labels.view_seq().len(),
                feats == model.features@,
                lrefs == model.label_refs@.map_values(|v: Vec<usize>| v@),
                li == l as int,
                ll == ctx.trans@.len(),
                l * l <= usize::MAX,
                ctx.wf(),
                ctx.flag == (CtxOpt { viterbi: true, marginals: true }),
                ctx.num_labels == l,
                ctx.spec_num_items_is_zero(),
                ctx.cap_items == 0,
                ctx.trans@ == tg_trans_all(tr0, li, feats, lrefs, i as int),
            decreases l - i,
        {
            let refs_len = model.label_refs[i].len();
            let ghost base = ctx.trans@;
            let mut r: usize = 0;
            while r < refs_len
                invariant
                    r <= refs_len,
                    i < l,
                    model.wf(),
                    l == model.labels.view_seq().len(),
                    refs_len == model.label_refs@[i as int]@.len(),
                    feats == model.features@,
                    lrefs == model.label_refs@.map_values(|v: Vec<usize>| v@),
                    li == l as int,
                    ll == ctx.trans@.len(),
                    l * l <= usize::MAX,
                    ctx.wf(),
                    ctx.flag == (CtxOpt { viterbi: true, marginals: true }),
                    ctx.num_labels == l,
                    ctx.spec_num_items_is_zero(),
                    ctx.cap_items == 0,
                    ctx.trans@ == tg_trans_refs(base, li, i as int, feats, lrefs[i as int], r as int),
                    base == tg_trans_all(tr0, li, feats, lrefs, i as int),
                decreases refs_len - r,
            {
                let fid = model.label_refs[i][r];
                let f = &model.features[fid];
                let dst = f.dst as usize;
                proof {
                    lemma_cell_in_matrix(i as int, dst as int, li, li);
                }
                ctx.trans.set(i * l + dst, f.weight);
                r += 1;
            }
            i += 1;
        }
        let na = model.num_attrs();
        Crf1dTagger { model, ctx, num_labels: l, num_attrs: na }
    }

    /// Load a sequence: grow the context to its length, clear the active
    /// state region, and add the weighted state-feature contributions of
    /// every known attribute.  Attribute ids outside the model's table
    /// are ignored.
    pub fn set_seq(&mut self, instance: &Sequence)
        requires
            old(self).wf(),
            instance.items@.len() >= 1,
            instance.items@.len() * old(self).num_labels <= usize::MAX,
        ensures
            final(self).wf(),
            final(self).model == old(self).model,
            final(self).num_labels == old(self).num_labels,
            final(self).num_attrs == old(self).num_attrs,
            final(self).ctx.num_labels == old(self).ctx.num_labels,
            final(self).ctx.num_items == instance.items@.len(),
            final(self).ctx.trans@ == old(self).ctx.trans@,
            final(self).ctx.state@ == tg_state_seq(
                Seq::new((instance.items@.len() * old(self).num_labels) as nat, |k: int| F_ZERO),
                old(self).num_labels as int,
                old(self).model.features@,
                old(self).model.attr_refs@.map_values(|v: Vec<usize>| v@),
                *instance,
                instance.items@.len() as int,
            ).add(
                final(self).ctx.state@.skip(
                    (instance.items@.len() * old(self).num_labels) as int,
                ),
            ),
    {
        let tn = instance.len();
        let l = self.num_labels;
        self.ctx.resize(tn);
        self.ctx.reset(ResetOpt::state_only());
        let ghost feats = self.model.features@;
        let ghost arefs = self.model.attr_refs@.map_values(|v: Vec<usize>| v@);
        let ghost li = l as int;
        let ghost st0 = Seq::new((tn * l) as nat, |k: int| F_ZERO);
        proof {
            crate::context::lemma_active_region(tn as int, self.ctx.cap_items as int, l as int);
            assert(self.ctx.state@.subrange(0, (tn * l) as int) =~= st0);
        }
        let ghost tail = self.ctx.state@.skip((tn * l) as int);
        let cap = self.ctx.cap_items;
        let total = self.ctx.state.len();
        let mut t: usize = 0;
        while t < tn
            invariant
                t <= tn,
                self.wf(),
                tn == instance.items@.len(),
                tn == self.ctx.num_items,
                tn * l <= usize::MAX,
                l == self.num_labels,
                l == self.ctx.num_labels,
                self.model == old(self).model,
                self.num_attrs == old(self).num_attrs,
                feats == self.model.features@,
                arefs == self.model.attr_refs@.map_values(|v: Vec<usize>| v@),
                li == l as int,
                cap == self.ctx.cap_items,
                total == self.ctx.state@.len(),
                cap * l <= usize::MAX,
                self.ctx.trans@ == old(self).ctx.trans@,
                self.ctx == (Crf1dContext { state: self.ctx.state, ..self.ctx }),
                self.ctx.flag == old(self).ctx.flag,
                st0.len() == tn * l,
                tail == self.ctx.state@.skip((tn * l) as int),
                self.ctx.state@ == tg_state_seq(st0, li, feats, arefs, *instance, t as int).add(tail),
                tg_state_seq(st0, li, feats, arefs, *instance, t as int).len() == tn * l,
            decreases tn - t,
        {
            let item = &instance.items[t];
            let an = item.len();
            let ghost st_t = self.ctx.state@.subrange(0, (tn * l) as int);
            let mut a: usize = 0;
            while a < an
                invariant
                    a <= an,
                    t < tn,
                    self.wf(),
                    tn == instance.items@.len(),
                    tn == self.ctx.num_items,
                    tn * l <= usize::MAX,
                    l == self.num_labels,
                    l == self.ctx.num_labels,
                    self.model == old(self).model,
                    item == instance.items@[t as int],
                    an == item@.len(),
                    feats == self.model.features@,
                    arefs == self.model.attr_refs@.map_values(|v: Vec<usize>| v@),
                    li == l as int,
                    cap == self.ctx.cap_items,
                    total == self.ctx.state@.len(),
                    cap * l <= usize::MAX,
                    self.ctx.trans@ == old(self).ctx.trans@,
                    self.ctx.flag == old(self).ctx.flag,
                    st_t.len() == tn * l,
                    tail == self.ctx.state@.skip((tn * l) as int),
                    self.ctx.state@ == tg_state_item(st_t, li, t as int, feats, arefs, item@, a as int).add(tail),
                    tg_state_item(st_t, li, t as int, feats, arefs, item@, a as int).len() == tn * l,
                    st_t == tg_state_seq(st0, li, feats, arefs, *instance, t as int),
                decreases an - a,
            {
                let attr = &item[a];
                let aid = attr.id as usize;
                if aid < self.model.attr_refs.len() {
                    let refs_len = self.model.attr_refs[aid].len();
                    let ghost base = self.ctx.state@.subrange(0, (tn * l) as int);
                    let mut r: usize = 0;
                    while r < refs_len
                        invariant
                            r <= refs_len,
                            t < tn,
                            a < an,
                            self.wf(),
                            tn == self.ctx.num_items,
                            tn * l <= usize::MAX,
                            l == self.num_labels,
                            l == self.ctx.num_labels,
                            self.model == old(self).model,
                            item == instance.items@[t as int],
                            attr == item@[a as int],
                            aid == attr.id as usize,
                            aid < self.model.attr_refs@.len(),
                            refs_len == self.model.attr_refs@[aid as int]@.len(),
                            feats == self.model.features@,
                            arefs == self.model.attr_refs@.map_values(|v: Vec<usize>| v@),
                            li == l as int,
                            cap == self.ctx.cap_items,
                            total == self.ctx.state@.len(),
                            cap * l <= usize::MAX,
                            self.ctx.trans@ == old(self).ctx.trans@,
                            self.ctx.flag == old(self).ctx.flag,
                            base.len() == tn * l,
                            tail == self.ctx.state@.skip((tn * l) as int),
                            self.ctx.state@ == tg_state_refs(
                                base,
                                li,
                                t as int,
                                feats,
                                arefs[aid as int],
                                attr.value,
                                r as int,
                            ).add(tail),
                            tg_state_refs(
                                base,
                                li,
                                t as int,
                                feats,
                                arefs[aid as int],
                                attr.value,
                                r as int,
                            ).len() == tn * l,
                            base == tg_state_item(st_t, li, t as int, feats, arefs, item@, a as int),
                        decreases refs_len - r,
                    {
                        let fid = self.model.attr_refs[aid][r];
                        let f = &self.model.features[fid];
                        let dst = f.dst as usize;
                        proof {
                            lemma_cell_in_matrix(t as int, dst as int, tn as int, li);
                            lemma_cell_in_matrix(t as int, dst as int, cap as int, li);
                        }
                        let c = t * l + dst;
                        let nv = fadd_x(self.ctx.state[c], fmul_x(f.weight, attr.value));
                        self.ctx.state.set(c, nv);
                        proof {
                            assert(self.ctx.state@.skip((tn * l) as int) =~= tail);
                            assert(self.ctx.state@ =~= tg_state_refs(
                                base,
                                li,
                                t as int,
                                feats,
                                arefs[aid as int],
                                attr.value,
                                r + 1,
                            ).add(tail));
                        }
                        r += 1;
                    }
                }
                a += 1;
            }
            t += 1;
        }
    }

    /// Run the Viterbi decoding over the loaded sequence.
    pub fn viterbi(&mut self, labels: &mut Vec<usize>) -> (r: u64)
        requires
            old(self).wf(),
            1 <= old(self).ctx.num_items,
            1 <= old(self).ctx.num_labels,
            old(labels)@.len() == old(self).ctx.num_items,
        ensures
            final(self).wf(),
            final(self).model == old(self).model,
            final(self).num_labels == old(self).num_labels,
            final(self).num_attrs == old(self).num_attrs,
            final(self).ctx.num_items == old(self).ctx.num_items,
            final(self).ctx.state@ == old(self).ctx.state@,
            final(self).ctx.trans@ == old(self).ctx.trans@,
            final(labels)@.len() == old(self).ctx.num_items,
            forall|t: int|
                0 <= t < old(self).ctx.num_items ==> final(labels)@[t] == vit_label(
                    old(self).ctx.state@,
                    old(self).ctx.trans@,
                    old(self).ctx.num_labels as int,
                    old(self).ctx.backward_edge@,
                    old(self).ctx.num_items as int,
                    t,
                ),
            r == vit_final(
                vit_row(
                    old(self).ctx.state@,
                    old(self).ctx.trans@,
                    old(self).ctx.num_labels as int,
                    old(self).ctx.num_items - 1,
                ),
                old(self).ctx.num_labels as int,
            ).0,
    {
        self.ctx.viterbi(labels)
    }

    /// The log-domain score of a label path over the loaded sequence.
    pub fn score(&self, path: &Vec<usize>) -> (r: u64)
        requires
            self.wf(),
            1 <= self.ctx.num_items,
            1 <= self.ctx.num_labels,
            path@.len() == self.ctx.num_items,
            forall|i: int| 0 <= i < path@.len() ==> path@[i] < self.ctx.num_labels,
        ensures
            r == crate::context::path_score(
                self.ctx.state@,
                self.ctx.trans@,
                self.ctx.num_labels as int,
                path@,
                self.ctx.num_items - 1,
            ),
    {
        self.ctx.score(path)
    }

    /// The stored log-partition value.
    pub fn lognorm(&self) -> (r: u64)
        ensures
            r == self.ctx.log_norm,
    {
        self.ctx.lognorm()
    }

    /// The logarithm of the probability of a label path: its score minus
    /// the log-partition value.  The caller must have run the forward
    /// pass (with externally supplied exponentials) to fill the
    /// log-partition value.
    pub fn log_probability(&self, path: &Vec<usize>) -> (r: u64)
        requires
            self.wf(),
            1 <= self.ctx.num_items,
            1 <= self.ctx.num_labels,
            path@.len() == self.ctx.num_items,
            forall|i: int| 0 <= i < path@.len() ==> path@[i] < self.ctx.num_labels,
        ensures
            r == fsub(
                crate::context::path_score(
                    self.ctx.state@,
                    self.ctx.trans@,
                    self.ctx.num_labels as int,
                    path@,
                    self.ctx.num_items - 1,
                ),
                self.ctx.log_norm,
            ),
    {
        let s = self.ctx.score(path);
        fsub_x(s, self.ctx.lognorm())
    }

    /// The marginal probability of label `l` at position `t`, as the
    /// marginal pass left it.
    pub fn marginal_point(&self, l: usize, t: usize) -> (r: u64)
        requires
            self.wf(),
            l < self.ctx.num_labels,
            t < self.ctx.num_items,
        ensures
            r == self.ctx.mexp_state@[t * self.ctx.num_labels + l],
    {
        let total = self.ctx.mexp_state.len();
        proof {
            crate::context::lemma_active_region(
                self.ctx.num_items as int,
                self.ctx.cap_items as int,
                self.ctx.num_labels as int,
            );
            lemma_cell_in_matrix(
                t as int,
                l as int,
                self.ctx.cap_items as int,
                self.ctx.num_labels as int,
            );
        }
        self.ctx.mexp_state[t * self.num_labels + l]
    }

    /// Tag a sequence: load it and return the Viterbi label path.
    pub fn tag(&mut self, instance: &Sequence) -> (r: Vec<usize>)
        requires
            old(self).wf(),
            1 <= old(self).ctx.num_labels,
            instance.items@.len() >= 1,
            instance.items@.len() * old(self).num_labels <= usize::MAX,
        ensures
            final(self).wf(),
            final(self).model == old(self).model,
            final(self).ctx.trans@ == old(self).ctx.trans@,
            r@.len() == instance.items@.len(),
            ({
                let st = tg_state_seq(
                    Seq::new(
                        (instance.items@.len() * old(self).num_labels) as nat,
                        |k: int| F_ZERO,
                    ),
                    old(self).num_labels as int,
                    old(self).model.features@,
                    old(self).model.attr_refs@.map_values(|v: Vec<usize>| v@),
                    *instance,
                    instance.items@.len() as int,
                );
                exists|bwd0: Seq<usize>|
                    {
                        &&& #[trigger] bwd0.len() == final(self).ctx.backward_edge@.len()
                        &&& (forall|k: int|
                            0 <= k < bwd0.len() ==> (#[trigger] bwd0[k])
                                < old(self).num_labels)
                        &&& (forall|t: int|
                            0 <= t < instance.items@.len() ==> r@[t] == vit_label(
                                st.add(final(self).ctx.state@.skip(st.len() as int)),
                                old(self).ctx.trans@,
                                old(self).num_labels as int,
                                bwd0,
                                instance.items@.len() as int,
                                t,
                            ))
                    }
            }),
    {
        self.set_seq(instance);
        let tn = instance.len();
        let mut labels: Vec<usize> = crate::context::zero_usize_vec(tn);
        let ghost pre = self.ctx;
        let _ = self.ctx.viterbi(&mut labels);
        proof {
            let bwd0 = pre.backward_edge@;
            let st = tg_state_seq(
                Seq::new((instance.items@.len() * old(self).num_labels) as nat, |k: int| F_ZERO),
                old(self).num_labels as int,
                old(self).model.features@,
                old(self).model.attr_refs@.map_values(|v: Vec<usize>| v@),
                *instance,
                instance.items@.len() as int,
            );
            assert(pre.state@ == self.ctx.state@);
            assert(st.add(self.ctx.state@.skip(st.len() as int)) == pre.state@);
            assert({
                &&& #[trigger] bwd0.len() == self.ctx.backward_edge@.len()
                &&& (forall|k: int|
                    0 <= k < bwd0.len() ==> (#[trigger] bwd0[k]) < old(self).num_labels)
                &&& (forall|t: int|
                    0 <= t < instance.items@.len() ==> labels@[t] == vit_label(
                        st.add(self.ctx.state@.skip(st.len() as int)),
                        old(self).ctx.trans@,
                        old(self).num_labels as int,
                        bwd0,
                        instance.items@.len() as int,
                        t,
                    ))
            });
        }
        labels
    }
}

} // verus!
