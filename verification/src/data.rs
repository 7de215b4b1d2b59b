//! Basic training-data containers: an attribute with a real value, an
//! instance (a list of items with parallel labels), and a collection of
//! instances.  Values and weights are binary64 bit patterns.

use crate::floats::F_ONE;
use crate::quark::Quark;
use vstd::prelude::*;

verus! {

/// An observation: an attribute id and its value (bit pattern).
#[derive(Debug, Clone)]
pub struct Attr {
    pub aid: usize,
    pub value: u64,
}

impl Attr {
    pub fn new(aid: usize, value: u64) -> (r: Attr)
        ensures
            r.aid == aid,
            r.value == value,
    {
        Attr { aid, value }
    }
}

/// An item: the attributes observed at one position.
pub type Item = Vec<Attr>;

/// A labeled instance: items with parallel gold labels, a weight and a
/// holdout group.
#[derive(Debug)]
pub struct Instance {
    pub items: Vec<Item>,
    pub labels: Vec<usize>,
    pub weight: u64,
    pub group: usize,
}

impl Instance {
    pub fn append(&mut self, item: Item, label: usize)
        ensures
            final(self).items@ == old(self).items@.push(item),
            final(self).labels@ == old(self).labels@.push(label),
            final(self).weight == old(self).weight,
            final(self).group == old(self).group,
    {
        self.items.push(item);
        self.labels.push(label);
    }

    pub fn clear(&mut self)
        ensures
            final(self).items@.len() == 0,
            final(self).labels@.len() == 0,
            final(self).weight == old(self).weight,
            final(self).group == old(self).group,
    {
        self.items.clear();
        self.labels.clear();
    }

    pub fn len(&self) -> (r: usize)
        ensures
            r == self.items@.len(),
    {
        self.items.len()
    }

    pub fn is_empty(&self) -> (r: bool)
        ensures
            r == (self.items@.len() == 0 && self.labels@.len() == 0),
    {
        self.items.len() == 0 && self.labels.len() == 0
    }
}

impl Default for Instance {
    /// An empty instance with unit weight.
    fn default() -> (r: Instance)
        ensures
            r.items@.len() == 0,
            r.labels@.len() == 0,
            r.weight == F_ONE,
            r.group == 0,
    {
        Instance { items: Vec::new(), labels: Vec::new(), weight: F_ONE, group: 0 }
    }
}

/// The greatest item count among the first `n` instances.
pub open spec fn spec_inst_max_len(v: Seq<Instance>, n: int) -> int
    decreases n,
{
    if n <= 0 {
        0
    } else {
        let m = spec_inst_max_len(v, n - 1);
        if v[n - 1].items@.len() > m {
            v[n - 1].items@.len() as int
        } else {
            m
        }
    }
}

/// The total item count of the first `n` instances.
pub open spec fn spec_inst_total(v: Seq<Instance>, n: int) -> int
    decreases n,
{
    if n <= 0 {
        0
    } else {
        spec_inst_total(v, n - 1) + v[n - 1].items@.len()
    }
}

/// A collection of instances with its symbol tables.
pub struct Data {
    pub instances: Vec<Instance>,
    pub attrs: Quark,
    pub labels: Quark,
}

impl Data {
    /// Append a nonempty instance; an empty one is skipped.
    pub fn append(&mut self, instance: Instance)
        ensures
            final(self).instances@ == (if instance.items@.len() == 0 && instance.labels@.len()
                == 0 {
                old(self).instances@
            } else {
                old(self).instances@.push(instance)
            }),
            final(self).attrs == old(self).attrs,
            final(self).labels == old(self).labels,
    {
        if !(instance.items.len() == 0 && instance.labels.len() == 0) {
            self.instances.push(instance);
        }
    }

    pub fn max_length(&self) -> (r: usize)
        ensures
            r == spec_inst_max_len(self.instances@, self.instances@.len() as int),
    {
        let n = self.instances.len();
        let mut m: usize = 0;
        let mut i: usize = 0;
        while i < n
            invariant
                i <= n,
                n == self.instances@.len(),
                m == spec_inst_max_len(self.instances@, i as int),
            decreases n - i,
        {
            let k = self.instances[i].items.len();
            if k > m {
                m = k;
            }
            i += 1;
        }
        m
    }

    pub fn total_items(&self) -> (r: usize)
        requires
            spec_inst_total(self.instances@, self.instances@.len() as int) <= usize::MAX,
        ensures
            r == spec_inst_total(self.instances@, self.instances@.len() as int),
    {
        let n = self.instances.len();
        let mut total: usize = 0;
        let mut i: usize = 0;
        while i < n
            invariant
                i <= n,
                n == self.instances@.len(),
                total == spec_inst_total(self.instances@, i as int),
                spec_inst_total(self.instances@, n as int) <= usize::MAX,
            decreases n - i,
        {
            proof {
                lemma_inst_total_mono(self.instances@, i + 1, n as int);
            }
            total = total + self.instances[i].items.len();
            i += 1;
        }
        total
    }
}

/// Summing more instances never shrinks the total.
pub proof fn lemma_inst_total_mono(v: Seq<Instance>, a: int, b: int)
    requires
        0 <= a <= b,
    ensures
        spec_inst_total(v, a) <= spec_inst_total(v, b),
    decreases b - a,
{
    if a < b {
        lemma_inst_total_mono(v, a, b - 1);
    }
}

} // verus!
