//! Feature generation: enumerate state features (attribute, label) and
//! transition features (label, label) from a dataset, accumulate their
//! empirical frequencies, and build the per-attribute and per-label
//! reverse indices.
//!
//! The generation is modeled as a fold over the stream of feature events
//! that a left-to-right walk of the dataset emits: the first event of an
//! identity appends a new feature (ids are assigned in first-occurrence
//! order), every later event of the same identity adds its frequency
//! onto the stored one.

use crate::dataset::{Attr, Dataset, Sequence};
use crate::floats::{fadd, fle, fmul, fadd_x, fle_x, fmul_x, F_ZERO};
use std::collections::HashMap;
use vstd::prelude::*;

verus! {

broadcast use vstd::std_specs::hash::group_hash_axioms;

/// The two feature kinds.
#[derive(Debug, Clone, Copy, PartialEq, Eq, Structural)]
pub enum FeatType {
    /// An (attribute, label) indicator.
    FT_STATE,
    /// A (label, label) indicator.
    FT_TRANS,
}

/// A feature: its kind, source id (attribute id for state features,
/// label id for transition features), destination label id, and its
/// empirical frequency as a binary64 bit pattern.
#[derive(Debug, Clone)]
pub struct Feat {
    pub ftype: FeatType,
    pub src: u32,
    pub dst: u32,
    pub freq: u64,
}

/// Whether two features share the identity (kind, src, dst).
pub open spec fn feat_same(a: Feat, b: Feat) -> bool {
    a.ftype == b.ftype && a.src == b.src && a.dst == b.dst
}

/// The first index `< n` of `fs` sharing the identity of `f`.
pub open spec fn feat_find(fs: Seq<Feat>, f: Feat, n: int) -> Option<int>
    decreases n,
{
    if n <= 0 {
        None
    } else {
        match feat_find(fs, f, n - 1) {
            Option::Some(i) => Option::Some(i),
            Option::None => if feat_same(fs[n - 1], f) {
                Option::Some(n - 1)
            } else {
                Option::None
            },
        }
    }
}

/// No two features of `fs` share an identity.
pub open spec fn feats_unique(fs: Seq<Feat>) -> bool {
    forall|i: int, j: int| 0 <= i < j < fs.len() ==> !feat_same(fs[i], fs[j])
}

/// One insert-or-accumulate step: an event whose identity is present adds
/// its frequency onto the stored entry (event first, stored second);
/// a new identity is appended.
pub open spec fn fs_add(fs: Seq<Feat>, ev: Feat) -> Seq<Feat> {
    match feat_find(fs, ev, fs.len() as int) {
        Option::Some(i) => fs.update(
            i,
            Feat { ftype: fs[i].ftype, src: fs[i].src, dst: fs[i].dst, freq: fadd(ev.freq, fs[i].freq) },
        ),
        Option::None => fs.push(ev),
    }
}

/// The fold of `fs_add` over the first `n` events.
pub open spec fn fs_fold(evs: Seq<Feat>, n: int) -> Seq<Feat>
    decreases n,
{
    if n <= 0 {
        Seq::empty()
    } else {
        fs_add(fs_fold(evs, n - 1), evs[n - 1])
    }
}

/// The state-feature events of the first `n` attributes of one item:
/// for each attribute, one event for the gold label with frequency
/// `weight * value`, then (with `possible_states`) one zero-frequency
/// event for every label.
pub open spec fn attr_events(item: Seq<Attr>, curr: usize, w: u64, l: int, ps: bool, n: int) -> Seq<
    Feat,
>
    decreases n,
{
    if n <= 0 {
        Seq::empty()
    } else {
        let a = item[n - 1];
        let own = seq![
            Feat { ftype: FeatType::FT_STATE, src: a.id, dst: curr as u32, freq: fmul(w, a.value) },
        ];
        let ps_block = if ps {
            Seq::new(l as nat, |i: int| Feat {
                ftype: FeatType::FT_STATE,
                src: a.id,
                dst: i as u32,
                freq: F_ZERO,
            })
        } else {
            Seq::empty()
        };
        attr_events(item, curr, w, l, ps, n - 1) + own + ps_block
    }
}

/// The events of position `t` of a sequence: a transition event from the
/// previous gold label (for `t >= 1`), then the state events of the item.
pub open spec fn pos_events(s: Sequence, l: int, ps: bool, t: int) -> Seq<Feat> {
    let tr = if t >= 1 {
        seq![
            Feat {
                ftype: FeatType::FT_TRANS,
                src: s.labels@[t - 1] as u32,
                dst: s.labels@[t] as u32,
                freq: s.weight,
            },
        ]
    } else {
        Seq::empty()
    };
    tr + attr_events(s.items@[t]@, s.labels@[t], s.weight, l, ps, s.items@[t]@.len() as int)
}

/// The events of the first `n` positions of a sequence.
pub open spec fn seq_events(s: Sequence, l: int, ps: bool, n: int) -> Seq<Feat>
    decreases n,
{
    if n <= 0 {
        Seq::empty()
    } else {
        seq_events(s, l, ps, n - 1) + pos_events(s, l, ps, n - 1)
    }
}

/// The events of the first `n` sequences of a dataset.
pub open spec fn ds_events(seqs: Seq<Sequence>, l: int, ps: bool, n: int) -> Seq<Feat>
    decreases n,
{
    if n <= 0 {
        Seq::empty()
    } else {
        ds_events(seqs, l, ps, n - 1) + seq_events(
            seqs[n - 1],
            l,
            ps,
            seqs[n - 1].items@.len() as int,
        )
    }
}

/// The zero-frequency transition events for the first `n` of the `l * l`
/// label pairs, in row-major order.
pub open spec fn edge_events(l: int, n: int) -> Seq<Feat> {
    Seq::new(n as nat, |k: int| Feat {
        ftype: FeatType::FT_TRANS,
        src: (k / l) as u32,
        dst: (k % l) as u32,
        freq: F_ZERO,
    })
}

/// The features whose frequency is at least `min_freq` under the IEEE
/// comparison, in order.
pub open spec fn keep_minfreq(fs: Seq<Feat>, min_freq: u64, n: int) -> Seq<Feat>
    decreases n,
{
    if n <= 0 {
        Seq::empty()
    } else {
        let prev = keep_minfreq(fs, min_freq, n - 1);
        if fle(min_freq, fs[n - 1].freq) {
            prev.push(fs[n - 1])
        } else {
            prev
        }
    }
}

/// The key of a feature identity of one kind: source and destination
/// packed into one integer.
pub open spec fn feat_key(src: u32, dst: u32) -> u64 {
    (src as u64 * 0x1_0000_0000 + dst as u64) as u64
}

/// Packing is injective.
pub proof fn lemma_feat_key_injective(s1: u32, d1: u32, s2: u32, d2: u32)
    by (nonlinear_arith)
    requires
        feat_key(s1, d1) == feat_key(s2, d2),
    ensures
        s1 == s2 && d1 == d2,
{
}

/// In a duplicate-free table, the first index with a given identity is
/// the only one.
pub proof fn lemma_feat_find_unique(fs: Seq<Feat>, f: Feat, i: int)
    requires
        feats_unique(fs),
        0 <= i < fs.len(),
        feat_same(fs[i], f),
    ensures
        feat_find(fs, f, fs.len() as int) == Option::Some(i),
{
    lemma_feat_find_from(fs, f, i, fs.len() as int);
}

proof fn lemma_feat_find_from(fs: Seq<Feat>, f: Feat, i: int, n: int)
    requires
        feats_unique(fs),
        0 <= i < n <= fs.len(),
        feat_same(fs[i], f),
    ensures
        feat_find(fs, f, n) == Option::Some(i),
    decreases n,
{
    if n == i + 1 {
        assert forall|k: int| 0 <= k < i implies !feat_same(fs[k], f) by {
            assert(!feat_same(fs[k], fs[i]));
        }
        lemma_feat_find_none(fs, f, i);
    } else {
        lemma_feat_find_from(fs, f, i, n - 1);
    }
}

proof fn lemma_feat_find_none(fs: Seq<Feat>, f: Feat, n: int)
    requires
        0 <= n <= fs.len(),
        forall|k: int| 0 <= k < n ==> !feat_same(fs[k], f),
    ensures
        feat_find(fs, f, n) == Option::<int>::None,
    decreases n,
{
    if n > 0 {
        lemma_feat_find_none(fs, f, n - 1);
    }
}

/// A found first identity index lies in range and matches.
pub proof fn lemma_feat_find_bound(fs: Seq<Feat>, f: Feat, n: int)
    requires
        n <= fs.len(),
    ensures
        match feat_find(fs, f, n) {
            Option::Some(i) => 0 <= i < n && feat_same(fs[i], f),
            Option::None => forall|k: int| 0 <= k < n ==> !feat_same(fs[k], f),
        },
    decreases n,
{
    if n > 0 {
        lemma_feat_find_bound(fs, f, n - 1);
    }
}

/// The insert-or-accumulate set: features in first-occurrence order with
/// one lookup table per feature kind.
pub struct FeatSet {
    pub m: Vec<Feat>,
    pub state_idx: HashMap<u64, usize>,
    pub trans_idx: HashMap<u64, usize>,
}

impl FeatSet {
    /// The tables index exactly the features of each kind, which carry
    /// pairwise distinct identities.
    pub open spec fn wf(self) -> bool {
        &&& feats_unique(self.m@)
        &&& forall|i: int|
            0 <= i < self.m@.len() && (#[trigger] self.m@[i]).ftype == FeatType::FT_STATE ==> {
                &&& self.state_idx@.contains_key(feat_key(self.m@[i].src, self.m@[i].dst))
                &&& self.state_idx@[feat_key(self.m@[i].src, self.m@[i].dst)] == i
            }
        &&& forall|i: int|
            0 <= i < self.m@.len() && (#[trigger] self.m@[i]).ftype == FeatType::FT_TRANS ==> {
                &&& self.trans_idx@.contains_key(feat_key(self.m@[i].src, self.m@[i].dst))
                &&& self.trans_idx@[feat_key(self.m@[i].src, self.m@[i].dst)] == i
            }
        &&& forall|k: u64|
            self.state_idx@.contains_key(k) ==> {
                &&& #[trigger] self.state_idx@[k] < self.m@.len()
                &&& self.m@[self.state_idx@[k] as int].ftype == FeatType::FT_STATE
                &&& feat_key(
                    self.m@[self.state_idx@[k] as int].src,
                    self.m@[self.state_idx@[k] as int].dst,
                ) == k
            }
        &&& forall|k: u64|
            self.trans_idx@.contains_key(k) ==> {
                &&& #[trigger] self.trans_idx@[k] < self.m@.len()
                &&& self.m@[self.trans_idx@[k] as int].ftype == FeatType::FT_TRANS
                &&& feat_key(
                    self.m@[self.trans_idx@[k] as int].src,
                    self.m@[self.trans_idx@[k] as int].dst,
                ) == k
            }
    }

    pub fn new() -> (r: FeatSet)
        ensures
            r.wf(),
            r.m@.len() == 0,
    {
        FeatSet { m: Vec::new(), state_idx: HashMap::new(), trans_idx: HashMap::new() }
    }

    /// Insert a feature event or accumulate its frequency onto the
    /// entry already holding its identity.
    pub fn add(&mut self, ftype: FeatType, src: u32, dst: u32, freq: u64)
        requires
            old(self).wf(),
        ensures
            final(self).wf(),
            final(self).m@ == fs_add(
                old(self).m@,
                Feat { ftype, src, dst, freq },
            ),
    {
        let ghost ev = Feat { ftype, src, dst, freq };
        let key: u64 = (src as u64) * 0x1_0000_0000 + (dst as u64);
        let tbl = match ftype {
            FeatType::FT_STATE => &self.state_idx,
            FeatType::FT_TRANS => &self.trans_idx,
        };
        let found: Option<usize> = match tbl.get(&key) {
            Some(i) => Some(*i),
            None => None,
        };
        match found {
            Some(i) => {
                proof {
                    lemma_feat_find_unique(self.m@, ev, i as int);
                }
                let old_feat = &self.m[i];
                let nf = Feat {
                    ftype: old_feat.ftype,
                    src: old_feat.src,
                    dst: old_feat.dst,
                    freq: fadd_x(freq, old_feat.freq),
                };
                self.m.set(i, nf);
                proof {
                    assert forall|i2: int, j2: int|
                        0 <= i2 < j2 < self.m@.len() implies !feat_same(
                        self.m@[i2],
                        self.m@[j2],
                    ) by {
                        assert(feat_same(old(self).m@[i2], self.m@[i2]));
                        assert(feat_same(old(self).m@[j2], self.m@[j2]));
                    }
                }
            },
            None => {
                proof {
                    if exists|k: int|
                        0 <= k < self.m@.len() && feat_same(#[trigger] self.m@[k], ev) {
                        let k = choose|k: int|
                            0 <= k < self.m@.len() && feat_same(#[trigger] self.m@[k], ev);
                        lemma_feat_key_injective(
                            self.m@[k].src,
                            self.m@[k].dst,
                            src,
                            dst,
                        );
                        assert(false);
                    }
                    lemma_feat_find_none(self.m@, ev, self.m@.len() as int);
                }
                let n = self.m.len();
                self.m.push(Feat { ftype, src, dst, freq });
                match ftype {
                    FeatType::FT_STATE => {
                        self.state_idx.insert(key, n);
                    },
                    FeatType::FT_TRANS => {
                        self.trans_idx.insert(key, n);
                    },
                }
                proof {
                    assert forall|i2: int, j2: int|
                        0 <= i2 < j2 < self.m@.len() implies !feat_same(
                        self.m@[i2],
                        self.m@[j2],
                    ) by {
                        if j2 == self.m@.len() - 1 {
                            if feat_same(self.m@[i2], ev) {
                                lemma_feat_key_injective(
                                    self.m@[i2].src,
                                    self.m@[i2].dst,
                                    src,
                                    dst,
                                );
                            }
                        }
                    }
                }
            },
        }
    }

    /// The features whose frequency reaches `min_freq`, in
    /// first-occurrence order.
    pub fn to_vec(self, min_freq: u64) -> (r: Vec<Feat>)
        ensures
            r@ == keep_minfreq(self.m@, min_freq, self.m@.len() as int),
    {
        let n = self.m.len();
        let mut out: Vec<Feat> = Vec::new();
        let mut i: usize = 0;
        while i < n
            invariant
                i <= n,
                n == self.m@.len(),
                out@ == keep_minfreq(self.m@, min_freq, i as int),
            decreases n - i,
        {
            if fle_x(min_freq, self.m[i].freq) {
                let f = &self.m[i];
                out.push(Feat { ftype: f.ftype, src: f.src, dst: f.dst, freq: f.freq });
                proof {
                    assert(out@ =~= keep_minfreq(self.m@, min_freq, i + 1));
                }
            }
            i += 1;
        }
        out
    }
}

/// All feature events of a generation run: the dataset walk followed,
/// when `connect_all_edges` is set, by a zero-frequency event for every
/// label pair.
pub open spec fn gen_events(seqs: Seq<Sequence>, l: int, ps: bool, cae: bool) -> Seq<Feat> {
    ds_events(seqs, l, ps, seqs.len() as int) + (if cae {
        edge_events(l, l * l)
    } else {
        Seq::empty()
    })
}

/// Folds over event lists that agree on their first `n` entries agree.
pub proof fn lemma_fs_fold_agree(e1: Seq<Feat>, e2: Seq<Feat>, n: int)
    requires
        forall|k: int| 0 <= k < n ==> e1[k] == e2[k],
    ensures
        fs_fold(e1, n) == fs_fold(e2, n),
    decreases n,
{
    if n > 0 {
        lemma_fs_fold_agree(e1, e2, n - 1);
    }
}

/// Division recovers the row of a row-major cell index.
pub proof fn lemma_divmod(i: int, j: int, l: int)
    by (nonlinear_arith)
    requires
        0 <= i,
        0 <= j < l,
    ensures
        (i * l + j) / l == i,
        (i * l + j) % l == j,
{
}

/// Enumerate the features of a dataset: transition events between
/// neighbouring gold labels, state events for every attribute (expanded
/// over all labels when `connect_all_attrs` is set), and, when
/// `connect_all_edges` is set, a zero-frequency transition event for
/// every label pair.  The result is the insert-or-accumulate fold of
/// that event stream.
#[verifier::rlimit(30)]
pub fn crf1df_collect(ds: &Dataset, connect_all_attrs: bool, connect_all_edges: bool) -> (r:
    FeatSet)
    requires
        ds.wf(),
        ds.m_labels.view_seq().len() < u32::MAX,
    ensures
        r.wf(),
        r.m@ == fs_fold(
            gen_events(ds.seqs@, ds.m_labels.view_seq().len() as int, connect_all_attrs, connect_all_edges),
            gen_events(ds.seqs@, ds.m_labels.view_seq().len() as int, connect_all_attrs, connect_all_edges).len() as int,
        ),
{
    let l = ds.num_labels();
    let ghost li = l as int;
    let ghost ps = connect_all_attrs;
    let ghost seqs = ds.seqs@;
    let mut set = FeatSet::new();
    let ghost mut evs = Seq::<Feat>::empty();
    let n = ds.len();
    let mut s: usize = 0;
    while s < n
        invariant
            s <= n,
            n == ds.seqs@.len(),
            ds.wf(),
            seqs == ds.seqs@,
            li == ds.m_labels.view_seq().len() as int,
            li < u32::MAX,
            l == ds.m_labels.view_seq().len(),
            ps == connect_all_attrs,
            set.wf(),
            set.m@ == fs_fold(evs, evs.len() as int),
            evs == ds_events(seqs, li, ps, s as int),
        decreases n - s,
    {
        let seq = ds.get(s);
        let tn = seq.len();
        let ghost base_s = evs;
        let mut t: usize = 0;
        while t < tn
            invariant
                t <= tn,
                s < n,
                n == ds.seqs@.len(),
                ds.wf(),
                seqs == ds.seqs@,
                seq == ds.seqs@[s as int],
                tn == seq.items@.len(),
                li == ds.m_labels.view_seq().len() as int,
                li < u32::MAX,
                l == ds.m_labels.view_seq().len(),
                ps == connect_all_attrs,
                set.wf(),
                set.m@ == fs_fold(evs, evs.len() as int),
                base_s == ds_events(seqs, li, ps, s as int),
                evs == base_s + seq_events(*seq, li, ps, t as int),
            decreases tn - t,
        {
            let ghost base_t = evs;
            proof {
                assert(ds.seqs@[s as int].wf());
                assert((ds.seqs@[s as int].labels@[t as int]) < li);
                if t >= 1 {
                    assert((ds.seqs@[s as int].labels@[t - 1]) < li);
                }
            }
            if t >= 1 {
                let src32 = seq.labels[t - 1] as u32;
                let dst32 = seq.labels[t] as u32;
                proof {
                    lemma_fs_fold_agree(evs, evs.push(pos_events(*seq, li, ps, t as int)[0]), evs.len() as int);
                }
                set.add(FeatType::FT_TRANS, src32, dst32, seq.weight);
                proof {
                    evs = evs.push(
                        Feat {
                            ftype: FeatType::FT_TRANS,
                            src: seq.labels@[t - 1] as u32,
                            dst: seq.labels@[t as int] as u32,
                            freq: seq.weight,
                        },
                    );
                    assert(set.m@ == fs_fold(evs, evs.len() as int));
                }
            }
            let item = &seq.items[t];
            let an = item.len();
            let ghost tr_done = evs;
            let mut a: usize = 0;
            while a < an
                invariant
                    a <= an,
                    t < tn,
                    s < n,
                    n == ds.seqs@.len(),
                    ds.wf(),
                    seqs == ds.seqs@,
                    seq == ds.seqs@[s as int],
                    tn == seq.items@.len(),
                    item == seq.items@[t as int],
                    an == item@.len(),
                    li == ds.m_labels.view_seq().len() as int,
                    li < u32::MAX,
                    l == ds.m_labels.view_seq().len(),
                    ps == connect_all_attrs,
                    set.wf(),
                    set.m@ == fs_fold(evs, evs.len() as int),
                    evs == tr_done + attr_events(
                        item@,
                        seq.labels@[t as int],
                        seq.weight,
                        li,
                        ps,
                        a as int,
                    ),
                decreases an - a,
            {
                proof {
                    assert(ds.seqs@[s as int].wf());
                    assert((ds.seqs@[s as int].labels@[t as int]) < li);
                }
                let attr = &item[a];
                let dst32 = seq.labels[t] as u32;
                proof {
                    lemma_fs_fold_agree(
                        evs,
                        evs.push(
                            Feat {
                                ftype: FeatType::FT_STATE,
                                src: attr.id,
                                dst: seq.labels@[t as int] as u32,
                                freq: fmul(seq.weight, attr.value),
                            },
                        ),
                        evs.len() as int,
                    );
                }
                set.add(FeatType::FT_STATE, attr.id, dst32, fmul_x(seq.weight, attr.value));
                proof {
                    evs = evs.push(
                        Feat {
                            ftype: FeatType::FT_STATE,
                            src: attr.id,
                            dst: seq.labels@[t as int] as u32,
                            freq: fmul(seq.weight, attr.value),
                        },
                    );
                }
                if connect_all_attrs {
                    let ghost ps_base = evs;
                    let ghost ps_block = Seq::new(li as nat, |i: int| Feat {
                        ftype: FeatType::FT_STATE,
                        src: attr.id,
                        dst: i as u32,
                        freq: F_ZERO,
                    });
                    let mut i: usize = 0;
                    while i < l
                        invariant
                            i <= l,
                            li == l as int,
                            li < u32::MAX,
                            set.wf(),
                            set.m@ == fs_fold(evs, evs.len() as int),
                            ps_block == Seq::new(li as nat, |i2: int| Feat {
                                ftype: FeatType::FT_STATE,
                                src: attr.id,
                                dst: i2 as u32,
                                freq: F_ZERO,
                            }),
                            evs == ps_base + ps_block.subrange(0, i as int),
                        decreases l - i,
                    {
                        proof {
                            lemma_fs_fold_agree(evs, evs.push(ps_block[i as int]), evs.len() as int);
                        }
                        set.add(FeatType::FT_STATE, attr.id, i as u32, F_ZERO);
                        proof {
                            evs = evs.push(ps_block[i as int]);
                            assert(evs =~= ps_base + ps_block.subrange(0, i + 1));
                        }
                        i += 1;
                    }
                    proof {
                        assert(ps_block.subrange(0, li) =~= ps_block);
                    }
                }
                proof {
                    assert(evs =~= tr_done + attr_events(
                        item@,
                        seq.labels@[t as int],
                        seq.weight,
                        li,
                        ps,
                        a + 1,
                    ));
                }
                a += 1;
            }
            proof {
                assert(evs =~= base_t + pos_events(*seq, li, ps, t as int));
                assert(evs =~= base_s + seq_events(*seq, li, ps, t + 1));
            }
            t += 1;
        }
        proof {
            assert(evs =~= ds_events(seqs, li, ps, s + 1));
        }
        s += 1;
    }
    if connect_all_edges {
        let ghost edge_base = evs;
        let mut i: usize = 0;
        while i < l
            invariant
                i <= l,
                li == l as int,
                li < u32::MAX,
                set.wf(),
                set.m@ == fs_fold(evs, evs.len() as int),
                edge_base == ds_events(seqs, li, ps, seqs.len() as int),
                evs == edge_base + edge_events(li, i as int * li),
            decreases l - i,
        {
            let mut j: usize = 0;
            while j < l
                invariant
                    j <= l,
                    i < l,
                    li == l as int,
                    li < u32::MAX,
                    set.wf(),
                    set.m@ == fs_fold(evs, evs.len() as int),
                    edge_base == ds_events(seqs, li, ps, seqs.len() as int),
                    evs == edge_base + edge_events(li, i as int * li + j as int),
                decreases l - j,
            {
                proof {
                    lemma_divmod(i as int, j as int, li);
                    lemma_fs_fold_agree(
                        evs,
                        evs.push(
                            Feat {
                                ftype: FeatType::FT_TRANS,
                                src: i as u32,
                                dst: j as u32,
                                freq: F_ZERO,
                            },
                        ),
                        evs.len() as int,
                    );
                }
                set.add(FeatType::FT_TRANS, i as u32, j as u32, F_ZERO);
                proof {
                    evs = evs.push(
                        Feat { ftype: FeatType::FT_TRANS, src: i as u32, dst: j as u32, freq: F_ZERO },
                    );
                    assert(evs =~= edge_base + edge_events(li, i as int * li + j as int + 1));
                }
                j += 1;
            }
            proof {
                assert((i + 1) as int * li == i as int * li + li) by (nonlinear_arith);
            }
            i += 1;
        }
        proof {
            assert(evs =~= gen_events(seqs, li, ps, true));
        }
    } else {
        proof {
            assert(evs =~= gen_events(seqs, li, ps, false));
        }
    }
    set
}

/// Generate the feature table of a dataset: enumerate and accumulate the
/// events, then keep the features whose frequency reaches `min_freq`.
pub fn crf1df_generate(
    ds: &Dataset,
    connect_all_attrs: bool,
    connect_all_edges: bool,
    feature_min_freq: u64,
) -> (r: Vec<Feat>)
    requires
        ds.wf(),
        ds.m_labels.view_seq().len() < u32::MAX,
    ensures
        ({
            let evs = gen_events(
                ds.seqs@,
                ds.m_labels.view_seq().len() as int,
                connect_all_attrs,
                connect_all_edges,
            );
            let folded = fs_fold(evs, evs.len() as int);
            r@ == keep_minfreq(folded, feature_min_freq, folded.len() as int)
        }),
{
    let set = crf1df_collect(ds, connect_all_attrs, connect_all_edges);
    set.to_vec(feature_min_freq)
}

/// The feature ids among the first `n` whose kind is `ft` and whose
/// source is `s`, in id order.
pub open spec fn refs_of(fs: Seq<Feat>, ft: FeatType, s: int, n: int) -> Seq<usize>
    decreases n,
{
    if n <= 0 {
        Seq::empty()
    } else {
        let prev = refs_of(fs, ft, s, n - 1);
        if fs[n - 1].ftype == ft && fs[n - 1].src == s {
            prev.push((n - 1) as usize)
        } else {
            prev
        }
    }
}

/// Build the reverse indices of a feature table: for each attribute the
/// ids of its state features, and for each label the ids of the
/// transition features leaving it, each list in feature-id order.
pub fn crf1df_init_references(features: &Vec<Feat>, a_count: usize, l_count: usize) -> (r: (
    Vec<Vec<usize>>,
    Vec<Vec<usize>>,
))
    ensures
        r.0@.len() == a_count,
        r.1@.len() == l_count,
        forall|a: int|
            0 <= a < a_count ==> (#[trigger] r.0@[a])@ == refs_of(
                features@,
                FeatType::FT_STATE,
                a,
                features@.len() as int,
            ),
        forall|i: int|
            0 <= i < l_count ==> (#[trigger] r.1@[i])@ == refs_of(
                features@,
                FeatType::FT_TRANS,
                i,
                features@.len() as int,
            ),
{
    let mut attrs: Vec<Vec<usize>> = Vec::new();
    let mut a: usize = 0;
    while a < a_count
        invariant
            a <= a_count,
            attrs@.len() == a,
            forall|a2: int|
                0 <= a2 < a ==> (#[trigger] attrs@[a2])@ == refs_of(
                    features@,
                    FeatType::FT_STATE,
                    a2,
                    features@.len() as int,
                ),
        decreases a_count - a,
    {
        attrs.push(collect_refs(features, FeatType::FT_STATE, a));
        a += 1;
    }
    let mut trans: Vec<Vec<usize>> = Vec::new();
    let mut i: usize = 0;
    while i < l_count
        invariant
            i <= l_count,
            trans@.len() == i,
            forall|i2: int|
                0 <= i2 < i ==> (#[trigger] trans@[i2])@ == refs_of(
                    features@,
                    FeatType::FT_TRANS,
                    i2,
                    features@.len() as int,
                ),
        decreases l_count - i,
    {
        trans.push(collect_refs(features, FeatType::FT_TRANS, i));
        i += 1;
    }
    (attrs, trans)
}

/// The ids of the features of one kind with one source, in id order.
fn collect_refs(features: &Vec<Feat>, ft: FeatType, s: usize) -> (r: Vec<usize>)
    ensures
        r@ == refs_of(features@, ft, s as int, features@.len() as int),
{
    let n = features.len();
    let mut out: Vec<usize> = Vec::new();
    let mut k: usize = 0;
    while k < n
        invariant
            k <= n,
            n == features@.len(),
            out@ == refs_of(features@, ft, s as int, k as int),
        decreases n - k,
    {
        let matches_kind = match (features[k].ftype, ft) {
            (FeatType::FT_STATE, FeatType::FT_STATE) => true,
            (FeatType::FT_TRANS, FeatType::FT_TRANS) => true,
            _ => false,
        };
        if matches_kind && features[k].src as usize == s {
            out.push(k);
        }
        k += 1;
    }
    out
}

/// Range-validity of one feature or event: the destination is a label
/// and the source is below the count its kind refers to.
pub open spec fn ev_ok(f: Feat, l: int, a: int) -> bool {
    &&& f.dst < l
    &&& (f.ftype == FeatType::FT_STATE ==> f.src < a)
    &&& (f.ftype == FeatType::FT_TRANS ==> f.src < l)
}

/// Range-validity of every entry of a sequence of features or events.
pub open spec fn evs_ok(evs: Seq<Feat>, l: int, a: int) -> bool {
    forall|k: int| 0 <= k < evs.len() ==> ev_ok(#[trigger] evs[k], l, a)
}

/// The events of one item are range-valid.
pub proof fn lemma_attr_events_ok(item: Seq<Attr>, curr: usize, w: u64, l: int, ps: bool, n: int, ab: int)
    requires
        curr < l,
        l < u32::MAX,
        forall|k: int| 0 <= k < item.len() ==> (#[trigger] item[k]).id < ab,
        n <= item.len(),
    ensures
        evs_ok(attr_events(item, curr, w, l, ps, n), l, ab),
    decreases n,
{
    if n > 0 {
        lemma_attr_events_ok(item, curr, w, l, ps, n - 1, ab);
    }
}

/// The events of the first sequences of a well-formed dataset are
/// range-valid.
pub proof fn lemma_ds_events_ok(ds: Dataset, ps: bool, n: int)
    requires
        ds.wf(),
        ds.m_labels.view_seq().len() < u32::MAX,
        n <= ds.seqs@.len(),
    ensures
        evs_ok(
            ds_events(ds.seqs@, ds.m_labels.view_seq().len() as int, ps, n),
            ds.m_labels.view_seq().len() as int,
            ds.m_attrs.view_seq().len() as int,
        ),
    decreases n,
{
    let l = ds.m_labels.view_seq().len() as int;
    let ab = ds.m_attrs.view_seq().len() as int;
    if n > 0 {
        lemma_ds_events_ok(ds, ps, n - 1);
        let s = ds.seqs@[n - 1];
        lemma_seq_events_ok(ds, s, n - 1, ps, s.items@.len() as int);
    }
}

/// The events of the first positions of one sequence of a well-formed
/// dataset are range-valid.
pub proof fn lemma_seq_events_ok(ds: Dataset, s: Sequence, si: int, ps: bool, n: int)
    requires
        ds.wf(),
        ds.m_labels.view_seq().len() < u32::MAX,
        0 <= si < ds.seqs@.len(),
        s == ds.seqs@[si],
        n <= s.items@.len(),
    ensures
        evs_ok(
            seq_events(s, ds.m_labels.view_seq().len() as int, ps, n),
            ds.m_labels.view_seq().len() as int,
            ds.m_attrs.view_seq().len() as int,
        ),
    decreases n,
{
    let l = ds.m_labels.view_seq().len() as int;
    let ab = ds.m_attrs.view_seq().len() as int;
    if n > 0 {
        lemma_seq_events_ok(ds, s, si, ps, n - 1);
        let t = n - 1;
        assert(s.wf());
        assert(s.labels@[t] < l);
        assert(forall|k: int|
            0 <= k < s.items@[t]@.len() ==> (#[trigger] s.items@[t]@[k]).id < ab);
        lemma_attr_events_ok(s.items@[t]@, s.labels@[t], s.weight, l, ps, s.items@[t]@.len() as int, ab);
        if t >= 1 {
            assert(s.labels@[t - 1] < l);
        }
    }
}

/// The all-pairs edge events are range-valid.
pub proof fn lemma_edge_events_ok(l: int, n: int, ab: int)
    requires
        0 <= n <= l * l,
        0 <= l < u32::MAX,
    ensures
        evs_ok(edge_events(l, n), l, ab),
{
    assert forall|k: int| 0 <= k < n implies ev_ok(#[trigger] edge_events(l, n)[k], l, ab) by {
        assert(0 <= k < l * l);
        assert(l > 0) by (nonlinear_arith)
            requires
                0 <= k < l * l,
                0 <= l,
        ;
        assert(k / l < l && 0 <= k % l < l) by (nonlinear_arith)
            requires
                0 <= k < l * l,
                l > 0,
        ;
    }
}

/// The insert-or-accumulate fold of range-valid events yields
/// range-valid features.
pub proof fn lemma_fold_ok(evs: Seq<Feat>, n: int, l: int, ab: int)
    requires
        n <= evs.len(),
        evs_ok(evs, l, ab),
    ensures
        evs_ok(fs_fold(evs, n), l, ab),
    decreases n,
{
    if n > 0 {
        lemma_fold_ok(evs, n - 1, l, ab);
        let prev = fs_fold(evs, n - 1);
        let ev = evs[n - 1];
        lemma_feat_find_bound(prev, ev, prev.len() as int);
        assert forall|k: int|
            0 <= k < fs_fold(evs, n).len() implies ev_ok(#[trigger] fs_fold(evs, n)[k], l, ab) by {
            match feat_find(prev, ev, prev.len() as int) {
                Option::Some(i) => {
                    assert(ev_ok(prev[k], l, ab));
                },
                Option::None => {
                    if k < prev.len() {
                        assert(ev_ok(prev[k], l, ab));
                    }
                },
            }
        }
    }
}

/// The minimum-frequency cut keeps only range-valid features.
pub proof fn lemma_keep_ok(fs: Seq<Feat>, mf: u64, n: int, l: int, ab: int)
    requires
        n <= fs.len(),
        evs_ok(fs, l, ab),
    ensures
        evs_ok(keep_minfreq(fs, mf, n), l, ab),
    decreases n,
{
    if n > 0 {
        lemma_keep_ok(fs, mf, n - 1, l, ab);
        assert forall|k: int|
            0 <= k < keep_minfreq(fs, mf, n).len() implies ev_ok(
            #[trigger] keep_minfreq(fs, mf, n)[k],
            l,
            ab,
        ) by {
            if k < keep_minfreq(fs, mf, n - 1).len() {
            } else {
                assert(keep_minfreq(fs, mf, n)[k] == fs[n - 1]);
            }
        }
    }
}

/// Every id in a reverse-index list addresses a feature of the list's
/// kind and source, and the ids are in range.
pub proof fn lemma_refs_of_ok(fs: Seq<Feat>, ft: FeatType, s: int, n: int)
    requires
        n <= fs.len(),
        fs.len() <= usize::MAX,
    ensures
        forall|j: int|
            0 <= j < refs_of(fs, ft, s, n).len() ==> {
                &&& (#[trigger] refs_of(fs, ft, s, n)[j]) < n
                &&& fs[refs_of(fs, ft, s, n)[j] as int].ftype == ft
                &&& fs[refs_of(fs, ft, s, n)[j] as int].src == s
            },
    decreases n,
{
    if n > 0 {
        lemma_refs_of_ok(fs, ft, s, n - 1);
        let cur = refs_of(fs, ft, s, n);
        let prev = refs_of(fs, ft, s, n - 1);
        assert forall|j: int| 0 <= j < cur.len() implies {
            &&& (#[trigger] cur[j]) < n
            &&& fs[cur[j] as int].ftype == ft
            &&& fs[cur[j] as int].src == s
        } by {
            if j < prev.len() {
                assert(cur[j] == prev[j]);
            } else {
                assert(cur[j] == (n - 1) as usize);
            }
        }
    }
}

/// The number of features of one kind among the first `n`.
pub open spec fn count_kind(fs: Seq<Feat>, ft: FeatType, n: int) -> int
    decreases n,
{
    if n <= 0 {
        0
    } else {
        count_kind(fs, ft, n - 1) + (if fs[n - 1].ftype == ft {
            1int
        } else {
            0int
        })
    }
}

/// The summed lengths of the reverse-index lists of the first `c`
/// sources.
pub open spec fn sum_ref_lens(fs: Seq<Feat>, ft: FeatType, c: int, n: int) -> int
    decreases c,
{
    if c <= 0 {
        0
    } else {
        sum_ref_lens(fs, ft, c - 1, n) + refs_of(fs, ft, c - 1, n).len()
    }
}

/// Extending the feature prefix by one grows the summed list lengths by
/// one exactly when the new feature is of the counted kind and its
/// source lies below the source count.
proof fn lemma_sum_ref_step(fs: Seq<Feat>, ft: FeatType, c: int, n: int)
    requires
        1 <= n <= fs.len(),
        0 <= c,
    ensures
        sum_ref_lens(fs, ft, c, n) == sum_ref_lens(fs, ft, c, n - 1) + (if fs[n - 1].ftype == ft
            && fs[n - 1].src < c {
            1int
        } else {
            0int
        }),
    decreases c,
{
    if c > 0 {
        lemma_sum_ref_step(fs, ft, c - 1, n);
    }
}

/// The reverse indices partition the features of their kind: when every
/// feature of kind `ft` has its source below `c`, the summed lengths of
/// the per-source lists equal the number of features of that kind.
pub proof fn lemma_reverse_index_partition(fs: Seq<Feat>, ft: FeatType, c: int, n: int)
    requires
        0 <= n <= fs.len(),
        0 <= c,
        forall|k: int| 0 <= k < n && (#[trigger] fs[k]).ftype == ft ==> fs[k].src < c,
    ensures
        sum_ref_lens(fs, ft, c, n) == count_kind(fs, ft, n),
    decreases n,
{
    if n > 0 {
        lemma_reverse_index_partition(fs, ft, c, n - 1);
        lemma_sum_ref_step(fs, ft, c, n);
    } else {
        lemma_sum_ref_zero(fs, ft, c, n);
    }
}

/// An empty feature prefix has empty reverse-index lists.
proof fn lemma_sum_ref_zero(fs: Seq<Feat>, ft: FeatType, c: int, n: int)
    requires
        n <= 0,
    ensures
        sum_ref_lens(fs, ft, c, n) == 0,
    decreases c,
{
    if c > 0 {
        lemma_sum_ref_zero(fs, ft, c - 1, n);
    }
}


/// The transition identity of a label pair (zero frequency).
pub open spec fn trans_feat(i: int, j: int) -> Feat {
    Feat { ftype: FeatType::FT_TRANS, src: i as u32, dst: j as u32, freq: F_ZERO }
}

/// Whether the table holds a transition feature for the label pair.
pub open spec fn has_trans_pair(fs: Seq<Feat>, i: int, j: int) -> bool {
    feat_find(fs, trans_feat(i, j), fs.len() as int) is Some
}

/// The insert-or-accumulate fold never produces two features with the
/// same identity.
pub proof fn lemma_fold_unique(evs: Seq<Feat>, n: int)
    ensures
        feats_unique(fs_fold(evs, n)),
    decreases n,
{
    if n > 0 {
        lemma_fold_unique(evs, n - 1);
        let prev = fs_fold(evs, n - 1);
        let ev = evs[n - 1];
        lemma_feat_find_bound(prev, ev, prev.len() as int);
        let cur = fs_fold(evs, n);
        assert forall|i: int, j: int| 0 <= i < j < cur.len() implies !feat_same(
            cur[i],
            cur[j],
        ) by {
            match feat_find(prev, ev, prev.len() as int) {
                Option::Some(p) => {
                    assert(cur.len() == prev.len());
                    if i == p {
                        assert(feat_same(cur[i], prev[i]));
                    } else {
                        assert(cur[i] == prev[i]);
                    }
                    if j == p {
                        assert(feat_same(cur[j], prev[j]));
                    } else {
                        assert(cur[j] == prev[j]);
                    }
                    assert(!feat_same(prev[i], prev[j]));
                    if feat_same(cur[i], cur[j]) {
                        assert(feat_same(prev[i], prev[j]));
                    }
                },
                Option::None => {
                    if j < prev.len() {
                        assert(cur[i] == prev[i]);
                        assert(cur[j] == prev[j]);
                    } else {
                        assert(cur[j] == ev);
                        assert(cur[i] == prev[i]);
                        if feat_same(cur[i], ev) {
                            assert(feat_same(prev[i], ev));
                            assert(false);
                        }
                    }
                },
            }
        }
    }
}

/// An identity that occurs among the first `n` events occurs in their
/// fold.
pub proof fn lemma_fold_has(evs: Seq<Feat>, n: int, k: int)
    requires
        0 <= k < n <= evs.len(),
    ensures
        exists|i: int|
            0 <= i < fs_fold(evs, n).len() && feat_same(#[trigger] fs_fold(evs, n)[i], evs[k]),
    decreases n,
{
    let prev = fs_fold(evs, n - 1);
    let ev = evs[n - 1];
    lemma_feat_find_bound(prev, ev, prev.len() as int);
    let cur = fs_fold(evs, n);
    if k == n - 1 {
        match feat_find(prev, ev, prev.len() as int) {
            Option::Some(p) => {
                assert(feat_same(cur[p], evs[k]));
            },
            Option::None => {
                assert(feat_same(cur[cur.len() - 1], evs[k]));
            },
        }
    } else {
        lemma_fold_has(evs, n - 1, k);
        let i = choose|i: int| 0 <= i < prev.len() && feat_same(#[trigger] prev[i], evs[k]);
        match feat_find(prev, ev, prev.len() as int) {
            Option::Some(p) => {
                assert(feat_same(cur[i], evs[k]));
            },
            Option::None => {
                assert(feat_same(cur[i], evs[k]));
            },
        }
    }
}

/// With `connect_all_edges` set, generation enumerates exactly the
/// `l * l` transition identities: the fold holds no duplicate identity,
/// it holds every label pair, and every transition feature in it is a
/// label pair.  (The first-occurrence lookup `feat_find` names the
/// witness for each pair.)
pub proof fn lemma_possible_transitions_complete(ds: Dataset, ps: bool)
    requires
        ds.wf(),
        1 <= ds.m_labels.view_seq().len() < u32::MAX,
    ensures
        ({
            let l = ds.m_labels.view_seq().len() as int;
            let evs = gen_events(ds.seqs@, l, ps, true);
            let fs = fs_fold(evs, evs.len() as int);
            &&& feats_unique(fs)
            &&& (forall|i: int, j: int|
                0 <= i < l && 0 <= j < l ==> #[trigger] has_trans_pair(fs, i, j))
            &&& (forall|k: int|
                0 <= k < fs.len() && (#[trigger] fs[k]).ftype == FeatType::FT_TRANS ==> fs[k].src
                    < l && fs[k].dst < l)
        }),
{
    let l = ds.m_labels.view_seq().len() as int;
    let ab = ds.m_attrs.view_seq().len() as int;
    let dse = ds_events(ds.seqs@, l, ps, ds.seqs@.len() as int);
    let evs = gen_events(ds.seqs@, l, ps, true);
    let fs = fs_fold(evs, evs.len() as int);
    lemma_fold_unique(evs, evs.len() as int);
    lemma_ds_events_ok(ds, ps, ds.seqs@.len() as int);
    lemma_edge_events_ok(l, l * l, ab);
    assert(evs_ok(evs, l, ab)) by {
        assert forall|k: int| 0 <= k < evs.len() implies ev_ok(#[trigger] evs[k], l, ab) by {
            if k < dse.len() {
                assert(evs[k] == dse[k]);
            } else {
                assert(evs[k] == edge_events(l, l * l)[k - dse.len()]);
            }
        }
    }
    lemma_fold_ok(evs, evs.len() as int, l, ab);
    assert forall|i: int, j: int| 0 <= i < l && 0 <= j < l implies #[trigger] has_trans_pair(
        fs,
        i,
        j,
    ) by {
        let kk = dse.len() as int + i * l + j;
        lemma_divmod(i, j, l);
        assert(0 <= i * l + j < l * l) by (nonlinear_arith)
            requires
                0 <= i < l,
                0 <= j < l,
        ;
        assert(evs[kk] == edge_events(l, l * l)[i * l + j]);
        assert(evs[kk].ftype == FeatType::FT_TRANS && evs[kk].src == i && evs[kk].dst == j);
        lemma_fold_has(evs, evs.len() as int, kk);
        let w = choose|w: int| 0 <= w < fs.len() && feat_same(#[trigger] fs[w], evs[kk]);
        lemma_feat_find_unique(fs, trans_feat(i, j), w);
    }
}

} // verus!
