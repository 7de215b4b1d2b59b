//! A symbol table: a bidirectional mapping between strings and dense
//! integer ids.  Ids are assigned in insertion order; lookups by string
//! return the first (and, for tables built through `find_or_insert`, the
//! only) index holding the string.

use vstd::prelude::*;

verus! {

/// Read access to a string table.
pub trait StringTable {
    fn to_str(&self, id: usize) -> Option<&str>;

    fn to_id(&self, s: &str) -> Option<usize>;

    fn len(&self) -> usize;
}

/// Interning access to a string table.
pub trait TextVectorizer {
    fn find_or_insert(&mut self, key: &str) -> usize;
}

/// The combined dictionary interface.
pub trait Dict {
    fn get_or_create(&mut self, key: &str) -> usize;

    fn to_id(&self, key: &str) -> Option<usize>;

    fn to_string(&self, id: usize) -> Option<String>;

    fn len(&self) -> usize;
}

/// The first index `< n` of `ss` holding `key`.
pub open spec fn first_index(ss: Seq<Seq<char>>, key: Seq<char>, n: int) -> Option<int>
    decreases n,
{
    if n <= 0 {
        None
    } else {
        match first_index(ss, key, n - 1) {
            Option::Some(i) => Option::Some(i),
            Option::None => if ss[n - 1] == key {
                Option::Some(n - 1)
            } else {
                Option::None
            },
        }
    }
}

/// A symbol table backed by a vector of strings in id order.
#[derive(Debug)]
pub struct Quark {
    pub v: Vec<String>,
}

impl Default for Quark {
    /// An empty table.
    fn default() -> (r: Quark)
        ensures
            r.view_seq().len() == 0,
    {
        Quark { v: Vec::new() }
    }
}

impl Quark {
    /// An empty table.
    pub fn empty() -> (r: Quark)
        ensures
            r.view_seq().len() == 0,
    {
        Quark { v: Vec::new() }
    }

    /// The sequence of interned strings, in id order.
    pub open spec fn view_seq(self) -> Seq<Seq<char>> {
        self.v@.map_values(|s: String| s@)
    }

    /// Build a table from a list of strings, ids in list order.
    pub fn new(v: &Vec<String>) -> (r: Quark)
        ensures
            r.view_seq() =~= v@.map_values(|s: String| s@),
    {
        let mut out: Vec<String> = Vec::new();
        let n = v.len();
        let mut i: usize = 0;
        while i < n
            invariant
                i <= n,
                n == v@.len(),
                out@.len() == i,
                forall|k: int| 0 <= k < i ==> out@[k] == v@[k],
            decreases n - i,
        {
            out.push(v[i].clone());
            i += 1;
        }
        proof {
            assert(out@ =~= v@);
        }
        Quark { v: out }
    }

    /// Take ownership of a list of strings, ids in list order.
    pub fn from_vec(v: Vec<String>) -> (r: Quark)
        ensures
            r.view_seq() == v@.map_values(|s: String| s@),
    {
        Quark { v }
    }

    /// The number of interned strings.
    pub fn len(&self) -> (r: usize)
        ensures
            r == self.view_seq().len(),
    {
        self.v.len()
    }

    /// The string interned under `id`, if any.
    pub fn to_str(&self, id: usize) -> (r: Option<&str>)
        ensures
            match r {
                Option::Some(s) => id < self.view_seq().len() && s@ == self.view_seq()[id as int],
                Option::None => id >= self.view_seq().len(),
            },
    {
        if id < self.v.len() {
            Some(self.v[id].as_str())
        } else {
            None
        }
    }

    /// The id under which `s` is interned: the first index holding it.
    pub fn to_id(&self, s: &str) -> (r: Option<usize>)
        ensures
            match r {
                Option::Some(i) => first_index(self.view_seq(), s@, self.view_seq().len() as int)
                    == Option::Some(i as int),
                Option::None => first_index(self.view_seq(), s@, self.view_seq().len() as int)
                    == Option::<int>::None,
            },
    {
        let key: String = s.to_owned();
        let n = self.v.len();
        let mut i: usize = 0;
        while i < n
            invariant
                i <= n,
                n == self.v@.len(),
                key@ == s@,
                first_index(self.view_seq(), s@, i as int) == Option::<int>::None,
            decreases n - i,
        {
            if self.v[i] == key {
                proof {
                    lemma_first_index_extend(self.view_seq(), s@, i as int, n as int);
                }
                return Some(i);
            }
            i += 1;
        }
        None
    }

    /// The id of `key`, interning it at the next free id when absent.
    pub fn find_or_insert(&mut self, key: &str) -> (r: usize)
        ensures
            match first_index(old(self).view_seq(), key@, old(self).view_seq().len() as int) {
                Option::Some(i) => r == i && final(self).view_seq() == old(self).view_seq(),
                Option::None => {
                    &&& r == old(self).view_seq().len()
                    &&& final(self).view_seq() =~= old(self).view_seq().push(key@)
                },
            },
    {
        let key_s: String = key.to_owned();
        let n = self.v.len();
        let mut i: usize = 0;
        while i < n
            invariant
                i <= n,
                n == self.v@.len(),
                self.v@ == old(self).v@,
                key_s@ == key@,
                first_index(self.view_seq(), key@, i as int) == Option::<int>::None,
            decreases n - i,
        {
            if self.v[i] == key_s {
                proof {
                    lemma_first_index_extend(self.view_seq(), key@, i as int, n as int);
                }
                return i;
            }
            i += 1;
        }
        self.v.push(key_s);
        n
    }
}

/// A found first index lies within the searched range.
pub proof fn lemma_first_index_bound(ss: Seq<Seq<char>>, key: Seq<char>, n: int)
    ensures
        match first_index(ss, key, n) {
            Option::Some(i) => 0 <= i < n,
            Option::None => true,
        },
    decreases n,
{
    if n > 0 {
        lemma_first_index_bound(ss, key, n - 1);
    }
}

/// If no index below `i` holds `key` and index `i` does, then the first
/// index holding `key` anywhere below `n > i` is `i`.
pub proof fn lemma_first_index_extend(ss: Seq<Seq<char>>, key: Seq<char>, i: int, n: int)
    requires
        0 <= i < n <= ss.len(),
        first_index(ss, key, i) == Option::<int>::None,
        ss[i] == key,
    ensures
        first_index(ss, key, n) == Option::Some(i),
    decreases n,
{
    if n == i + 1 {
    } else {
        lemma_first_index_extend(ss, key, i, n - 1);
    }
}

impl StringTable for Quark {
    fn to_str(&self, id: usize) -> Option<&str> {
        Quark::to_str(self, id)
    }

    fn to_id(&self, s: &str) -> Option<usize> {
        Quark::to_id(self, s)
    }

    fn len(&self) -> usize {
        Quark::len(self)
    }
}

impl TextVectorizer for Quark {
    fn find_or_insert(&mut self, key: &str) -> usize {
        Quark::find_or_insert(self, key)
    }
}

impl Dict for Quark {
    fn get_or_create(&mut self, key: &str) -> usize {
        Quark::find_or_insert(self, key)
    }

    fn to_id(&self, key: &str) -> Option<usize> {
        Quark::to_id(self, key)
    }

    fn to_string(&self, id: usize) -> Option<String> {
        match Quark::to_str(self, id) {
            Some(s) => Some(s.to_owned()),
            None => None,
        }
    }

    fn len(&self) -> usize {
        Quark::len(self)
    }
}

} // verus!
