//! Labeled training data: items are sparse vectors of (attribute id,
//! value) pairs, sequences pair an item list with a gold label list, and
//! a dataset owns the sequences together with the label and attribute
//! symbol tables.
//!
//! Attribute values and sequence weights are binary64 bit patterns.

use crate::floats::F_ONE;
use crate::quark::{first_index, lemma_first_index_bound, Quark};
use vstd::prelude::*;
use vstd::string::StrSliceExecFns;

verus! {

/// An observation at a position: an attribute id and its value
/// (a binary64 bit pattern, typically 1.0).
#[derive(Debug, Clone)]
pub struct Attr {
    pub id: u32,
    pub value: u64,
}

/// An item: the attributes observed at one position.
pub type Item = Vec<Attr>;

/// A list of items with a parallel list of gold label ids, a weight
/// (binary64 bit pattern, default 1.0) and a holdout group id.
#[derive(Debug)]
pub struct Sequence {
    pub items: Vec<Item>,
    pub labels: Vec<usize>,
    pub weight: u64,
    pub group: usize,
}

impl Sequence {
    /// Parallel lists of equal length.
    pub open spec fn wf(self) -> bool {
        self.items@.len() == self.labels@.len()
    }

    /// Append one item with its gold label.
    pub fn push(&mut self, item: Item, label: usize)
        ensures
            final(self).items@ == old(self).items@.push(item),
            final(self).labels@ == old(self).labels@.push(label),
            final(self).weight == old(self).weight,
            final(self).group == old(self).group,
    {
        self.items.push(item);
        self.labels.push(label);
    }

    pub fn is_empty(&self) -> (r: bool)
        ensures
            r == (self.items@.len() == 0),
    {
        self.items.len() == 0
    }

    pub fn len(&self) -> (r: usize)
        ensures
            r == self.items@.len(),
    {
        self.items.len()
    }

    /// Remove every item and label, keeping weight and group.
    pub fn clear(&mut self)
        ensures
            final(self).items@.len() == 0,
            final(self).labels@.len() == 0,
            final(self).weight == old(self).weight,
            final(self).group == old(self).group,
    {
        self.items.clear();
        self.labels.clear();
    }
}

impl Default for Sequence {
    /// An empty sequence with unit weight.
    fn default() -> (r: Sequence)
        ensures
            r.items@.len() == 0,
            r.labels@.len() == 0,
            r.weight == F_ONE,
            r.group == 0,
    {
        Sequence { items: Vec::new(), labels: Vec::new(), weight: F_ONE, group: 0 }
    }
}

/// The greatest item count among the first `n` sequences.
pub open spec fn spec_max_len(seqs: Seq<Sequence>, n: int) -> int
    decreases n,
{
    if n <= 0 {
        0
    } else {
        let m = spec_max_len(seqs, n - 1);
        if seqs[n - 1].items@.len() > m {
            seqs[n - 1].items@.len() as int
        } else {
            m
        }
    }
}

/// The total item count of the first `n` sequences.
pub open spec fn spec_total_items(seqs: Seq<Sequence>, n: int) -> int
    decreases n,
{
    if n <= 0 {
        0
    } else {
        spec_total_items(seqs, n - 1) + seqs[n - 1].items@.len()
    }
}

/// Interning a list of keys into a table, one after the other: each key
/// already present keeps its first index, each new key is appended.
/// Returns the grown table and the assigned ids.
pub open spec fn intern_fold(tbl: Seq<Seq<char>>, keys: Seq<Seq<char>>, n: int) -> (
    Seq<Seq<char>>,
    Seq<int>,
)
    decreases n,
{
    if n <= 0 {
        (tbl, Seq::empty())
    } else {
        let prev = intern_fold(tbl, keys, n - 1);
        match first_index(prev.0, keys[n - 1], prev.0.len() as int) {
            Option::Some(i) => (prev.0, prev.1.push(i)),
            Option::None => (prev.0.push(keys[n - 1]), prev.1.push(prev.0.len() as int)),
        }
    }
}

/// A list of sequences with the label and attribute symbol tables that
/// their ids refer to.
#[derive(Debug)]
pub struct Dataset {
    pub seqs: Vec<Sequence>,
    pub m_labels: Quark,
    pub m_attrs: Quark,
}

impl Default for Dataset {
    /// An empty dataset with empty symbol tables.
    fn default() -> (r: Dataset)
        ensures
            r.seqs@.len() == 0,
            r.m_labels.view_seq().len() == 0,
            r.m_attrs.view_seq().len() == 0,
            r.wf(),
    {
        Dataset { seqs: Vec::new(), m_labels: Quark::empty(), m_attrs: Quark::empty() }
    }
}

impl Dataset {
    /// Every sequence is well-formed with every label id below the label
    /// count and every attribute id below the attribute count.
    pub open spec fn wf(self) -> bool {
        forall|s: int|
            0 <= s < self.seqs@.len() ==> {
                &&& (#[trigger] self.seqs@[s]).wf()
                &&& forall|t: int|
                    0 <= t < self.seqs@[s].labels@.len() ==> (#[trigger] self.seqs@[s].labels@[t])
                        < self.m_labels.view_seq().len()
                &&& forall|t: int, a: int|
                    0 <= t < self.seqs@[s].items@.len() && 0 <= a
                        < self.seqs@[s].items@[t]@.len() ==> (
                    #[trigger] self.seqs@[s].items@[t]@[a]).id < self.m_attrs.view_seq().len()
            }
    }

    /// Intern one labeled item: the label and each attribute string are
    /// looked up or added in the symbol tables, and the item (with unit
    /// attribute values) is appended to `seq`.
    pub fn intern_item(&mut self, label: &str, attrs: &Vec<String>, seq: &mut Sequence)
        requires
            old(self).m_attrs.view_seq().len() + attrs@.len() < u32::MAX,
        ensures
            final(self).seqs@ == old(self).seqs@,
            final(self).m_labels.view_seq() == (match first_index(
                old(self).m_labels.view_seq(),
                label@,
                old(self).m_labels.view_seq().len() as int,
            ) {
                Option::Some(_) => old(self).m_labels.view_seq(),
                Option::None => old(self).m_labels.view_seq().push(label@),
            }),
            final(self).m_attrs.view_seq() == intern_fold(
                old(self).m_attrs.view_seq(),
                attrs@.map_values(|a: String| a@),
                attrs@.len() as int,
            ).0,
            final(seq).labels@ == old(seq).labels@.push(
                match first_index(
                    old(self).m_labels.view_seq(),
                    label@,
                    old(self).m_labels.view_seq().len() as int,
                ) {
                    Option::Some(i) => i as usize,
                    Option::None => old(self).m_labels.view_seq().len() as usize,
                },
            ),
            final(seq).items@.len() == old(seq).items@.len() + 1,
            final(seq).items@.subrange(0, old(seq).items@.len() as int) == old(seq).items@,
            final(seq).items@.last()@.len() == attrs@.len(),
            forall|a: int|
                0 <= a < attrs@.len() ==> {
                    &&& (#[trigger] final(seq).items@.last()@[a]).value == F_ONE
                    &&& final(seq).items@.last()@[a].id as int == intern_fold(
                        old(self).m_attrs.view_seq(),
                        attrs@.map_values(|x: String| x@),
                        attrs@.len() as int,
                    ).1[a]
                },
            final(seq).weight == old(seq).weight,
            final(seq).group == old(seq).group,
    {
        let ghost keys = attrs@.map_values(|x: String| x@);
        let n = attrs.len();
        let mut item: Item = Vec::new();
        let mut a: usize = 0;
        while a < n
            invariant
                a <= n,
                n == attrs@.len(),
                keys == attrs@.map_values(|x: String| x@),
                old(self).m_attrs.view_seq().len() + attrs@.len() < u32::MAX,
                self.seqs@ == old(self).seqs@,
                self.m_labels == old(self).m_labels,
                self.m_attrs.view_seq() == intern_fold(old(self).m_attrs.view_seq(), keys, a as int).0,
                self.m_attrs.view_seq().len() <= old(self).m_attrs.view_seq().len() + a,
                item@.len() == a,
                forall|k: int|
                    0 <= k < a ==> {
                        &&& (#[trigger] item@[k]).value == F_ONE
                        &&& item@[k].id as int == intern_fold(
                            old(self).m_attrs.view_seq(),
                            keys,
                            a as int,
                        ).1[k]
                    },
            decreases n - a,
        {
            let ghost tbl0 = old(self).m_attrs.view_seq();
            let ghost pre = intern_fold(tbl0, keys, a as int);
            proof {
                lemma_intern_len(tbl0, keys, a as int);
                lemma_intern_fold_prefix(tbl0, keys, a as int, a + 1);
                assert(keys[a as int] == attrs@[a as int]@);
            }
            let id = self.m_attrs.find_or_insert(attrs[a].as_str());
            item.push(Attr { id: id as u32, value: F_ONE });
            a += 1;
            proof {
                lemma_first_index_bound(pre.0, keys[a - 1], pre.0.len() as int);
                let nxt = intern_fold(tbl0, keys, a as int);
                assert(nxt == (match first_index(pre.0, keys[a - 1], pre.0.len() as int) {
                    Option::Some(i) => (pre.0, pre.1.push(i)),
                    Option::None => (pre.0.push(keys[a - 1]), pre.1.push(pre.0.len() as int)),
                }));
                assert(id as int == nxt.1[a - 1]);
                assert(self.m_attrs.view_seq() == nxt.0);
                assert forall|k: int| 0 <= k < a implies {
                    &&& (#[trigger] item@[k]).value == F_ONE
                    &&& item@[k].id as int == intern_fold(tbl0, keys, a as int).1[k]
                } by {
                    lemma_intern_fold_prefix(tbl0, keys, a - 1, a as int);
                    if k < a - 1 {
                        assert(item@[k].id as int == pre.1[k]);
                    }
                }
            }
        }
        let lid = self.m_labels.find_or_insert(label);
        seq.push(item, lid);
    }

    /// Append a finished sequence, skipping an empty one.
    pub fn push_seq(&mut self, seq: Sequence)
        ensures
            final(self).m_labels == old(self).m_labels,
            final(self).m_attrs == old(self).m_attrs,
            final(self).seqs@ == (if seq.items@.len() == 0 {
                old(self).seqs@
            } else {
                old(self).seqs@.push(seq)
            }),
    {
        if seq.items.len() > 0 {
            self.seqs.push(seq);
        }
    }

    pub fn max_seq_length(&self) -> (r: usize)
        ensures
            r == spec_max_len(self.seqs@, self.seqs@.len() as int),
    {
        let n = self.seqs.len();
        let mut m: usize = 0;
        let mut i: usize = 0;
        while i < n
            invariant
                i <= n,
                n == self.seqs@.len(),
                m == spec_max_len(self.seqs@, i as int),
            decreases n - i,
        {
            let k = self.seqs[i].items.len();
            if k > m {
                m = k;
            }
            i += 1;
        }
        m
    }

    pub fn total_items(&self) -> (r: usize)
        requires
            spec_total_items(self.seqs@, self.seqs@.len() as int) <= usize::MAX,
        ensures
            r == spec_total_items(self.seqs@, self.seqs@.len() as int),
    {
        let n = self.seqs.len();
        let mut total: usize = 0;
        let mut i: usize = 0;
        while i < n
            invariant
                i <= n,
                n == self.seqs@.len(),
                total == spec_total_items(self.seqs@, i as int),
                spec_total_items(self.seqs@, n as int) <= usize::MAX,
            decreases n - i,
        {
            proof {
                lemma_total_items_mono(self.seqs@, i + 1, n as int);
            }
            total = total + self.seqs[i].items.len();
            i += 1;
        }
        total
    }

    pub fn len(&self) -> (r: usize)
        ensures
            r == self.seqs@.len(),
    {
        self.seqs.len()
    }

    pub fn get(&self, i: usize) -> (r: &Sequence)
        requires
            i < self.seqs@.len(),
        ensures
            r == self.seqs@[i as int],
    {
        &self.seqs[i]
    }

    pub fn num_labels(&self) -> (r: usize)
        ensures
            r == self.m_labels.view_seq().len(),
    {
        self.m_labels.len()
    }

    pub fn num_attrs(&self) -> (r: usize)
        ensures
            r == self.m_attrs.view_seq().len(),
    {
        self.m_attrs.len()
    }
}


/// The first tab at or after `from` among the first `n` characters.
pub open spec fn first_tab_from(s: Seq<char>, from: int, n: int) -> Option<int>
    decreases n - from,
{
    if from < 0 || from >= n {
        None
    } else if s[from] == '\t' {
        Option::Some(from)
    } else {
        first_tab_from(s, from + 1, n)
    }
}

/// The tab-separated fields of the characters from `from` on: split at
/// each tab, in order; a trailing tab yields a final empty field.
pub open spec fn tab_fields_from(s: Seq<char>, from: int) -> Seq<Seq<char>>
    decreases s.len() - from,
{
    if !(0 <= from <= s.len()) {
        Seq::empty()
    } else {
        match first_tab_from(s, from, s.len() as int) {
            Option::Some(t) => if from <= t < s.len() {
                seq![s.subrange(from, t)] + tab_fields_from(s, t + 1)
            } else {
                seq![s.subrange(from, s.len() as int)]
            },
            Option::None => seq![s.subrange(from, s.len() as int)],
        }
    }
}

/// The first tab at or after `from`, scanned left to right.
fn scan_tab(line: &str, from: usize, n: usize) -> (r: Option<usize>)
    requires
        n == line@.len(),
        from <= n,
    ensures
        match r {
            Option::Some(t) => first_tab_from(line@, from as int, n as int) == Option::Some(
                t as int,
            ) && from <= t < n,
            Option::None => first_tab_from(line@, from as int, n as int) is None,
        },
{
    let mut i = from;
    while i < n
        invariant
            from <= i <= n,
            n == line@.len(),
            first_tab_from(line@, from as int, n as int) == first_tab_from(
                line@,
                i as int,
                n as int,
            ),
        decreases n - i,
    {
        if line.get_char(i) == '\t' {
            return Some(i);
        }
        i += 1;
    }
    None
}

/// Collect the tab-separated fields from `start` on.
fn collect_fields(line: &str, start: usize, n: usize, attrs: &mut Vec<String>)
    requires
        n == line@.len(),
        start <= n,
    ensures
        final(attrs)@.map_values(|a: String| a@) == old(attrs)@.map_values(|a: String| a@)
            + tab_fields_from(line@, start as int),
    decreases n - start,
{
    match scan_tab(line, start, n) {
        Some(t2) => {
            attrs.push(line.substring_char(start, t2).to_owned());
            proof {
                assert(attrs@.map_values(|a: String| a@) =~= old(attrs)@.map_values(
                    |a: String| a@,
                ) + seq![line@.subrange(start as int, t2 as int)]);
            }
            collect_fields(line, t2 + 1, n, attrs);
            proof {
                assert(final(attrs)@.map_values(|a: String| a@) =~= old(attrs)@.map_values(
                    |a: String| a@,
                ) + tab_fields_from(line@, start as int));
            }
        },
        None => {
            attrs.push(line.substring_char(start, n).to_owned());
            proof {
                assert(attrs@.map_values(|a: String| a@) =~= old(attrs)@.map_values(
                    |a: String| a@,
                ) + tab_fields_from(line@, start as int));
            }
        },
    }
}

/// Split one line of the tab-separated text format: the label before
/// the first tab, then one attribute name per tab-separated field after
/// it.  A line without a tab carries no item and gives nothing.
pub fn parse_line(line: &str) -> (r: Option<(String, Vec<String>)>)
    ensures
        match r {
            Option::Some(p) => {
                &&& first_tab_from(line@, 0, line@.len() as int) is Some
                &&& p.0@ == line@.subrange(
                    0,
                    first_tab_from(line@, 0, line@.len() as int)->Some_0,
                )
                &&& p.1@.map_values(|a: String| a@) == tab_fields_from(
                    line@,
                    first_tab_from(line@, 0, line@.len() as int)->Some_0 + 1,
                )
            },
            Option::None => first_tab_from(line@, 0, line@.len() as int) is None,
        },
{
    let n = line.unicode_len();
    let t = match scan_tab(line, 0, n) {
        Some(t) => t,
        None => {
            return None;
        },
    };
    let label = line.substring_char(0, t).to_owned();
    let mut attrs: Vec<String> = Vec::new();
    collect_fields(line, t + 1, n, &mut attrs);
    proof {
        assert(Seq::<String>::empty().map_values(|a: String| a@) =~= Seq::<Seq<char>>::empty());
    }
    Some((label, attrs))
}

/// A longer interning fold only extends the table of a shorter one.
pub proof fn lemma_intern_fold_prefix(tbl: Seq<Seq<char>>, keys: Seq<Seq<char>>, a: int, b: int)
    requires
        0 <= a <= b,
    ensures
        intern_fold(tbl, keys, b).1.len() == b,
        forall|k: int|
            0 <= k < a ==> intern_fold(tbl, keys, a).1[k] == #[trigger] intern_fold(
                tbl,
                keys,
                b,
            ).1[k],
        intern_fold(tbl, keys, a).0.len() <= intern_fold(tbl, keys, b).0.len(),
    decreases b - a,
{
    if b <= 0 {
    } else if a == b {
        lemma_intern_len(tbl, keys, b);
    } else {
        lemma_intern_fold_prefix(tbl, keys, a, b - 1);
        lemma_intern_len(tbl, keys, b);
    }
}

/// The id list of an interning fold has one entry per key.
pub proof fn lemma_intern_len(tbl: Seq<Seq<char>>, keys: Seq<Seq<char>>, n: int)
    ensures
        n >= 0 ==> intern_fold(tbl, keys, n).1.len() == n,
        n < 0 ==> intern_fold(tbl, keys, n).1.len() == 0,
        intern_fold(tbl, keys, n).0.len() >= tbl.len(),
    decreases n,
{
    if n > 0 {
        lemma_intern_len(tbl, keys, n - 1);
    }
}

/// Summing more sequences never shrinks the total.
pub proof fn lemma_total_items_mono(seqs: Seq<Sequence>, a: int, b: int)
    requires
        0 <= a <= b,
    ensures
        spec_total_items(seqs, a) <= spec_total_items(seqs, b),
    decreases b - a,
{
    if a < b {
        lemma_total_items_mono(seqs, a, b - 1);
    }
}

} // verus!
