//! Label-wise and overall tagging performance: counting is done here
//! exactly; the precision/recall/F-measure ratios are binary64 values
//! computed over the counts.

use crate::floats::{
    fadd, fdiv, flt, fmul, f_of_int, fadd_x, fdiv_x, flt_x, fmul_x, f_of_int_x, F_ZERO,
};
use vstd::prelude::*;

verus! {

/// Bit pattern of 2.0.
pub const F_TWO_EVAL: u64 = 0x4000_0000_0000_0000;

/// A match count over a total.
#[derive(Debug, Clone, Copy)]
pub struct Measure {
    pub n_match: usize,
    pub n_total: usize,
}

impl Measure {
    /// The fraction of matches among the totals.
    pub fn precision(&self) -> (r: u64)
        requires
            self.n_match <= u64::MAX,
            self.n_total <= u64::MAX,
        ensures
            r == fdiv(f_of_int(self.n_match as u64), f_of_int(self.n_total as u64)),
    {
        fdiv_x(f_of_int_x(self.n_match as u64), f_of_int_x(self.n_total as u64))
    }

    /// With only matches and totals recorded, recall coincides with
    /// precision.
    pub fn recall(&self) -> (r: u64)
        requires
            self.n_match <= u64::MAX,
            self.n_total <= u64::MAX,
        ensures
            r == fdiv(f_of_int(self.n_match as u64), f_of_int(self.n_total as u64)),
    {
        fdiv_x(f_of_int_x(self.n_match as u64), f_of_int_x(self.n_total as u64))
    }

    /// The F-measure `2pr / (p + r)` over this measure's precision and
    /// recall.
    pub fn fmeasure(&self) -> (r: u64)
        requires
            self.n_match <= u64::MAX,
            self.n_total <= u64::MAX,
        ensures
            ({
                let p = fdiv(f_of_int(self.n_match as u64), f_of_int(self.n_total as u64));
                r == fdiv(fmul(fmul(p, p), F_TWO_EVAL), fadd(p, p))
            }),
    {
        let p = fdiv_x(f_of_int_x(self.n_match as u64), f_of_int_x(self.n_total as u64));
        fdiv_x(fmul_x(fmul_x(p, p), F_TWO_EVAL), fadd_x(p, p))
    }
}

/// Label-wise performance values.
#[derive(Debug, Clone, Copy)]
pub struct LabelMeasure {
    pub num_correct: usize,
    pub num_observation: usize,
    pub num_prediction: usize,
    pub precision: u64,
    pub recall: u64,
    pub fmeasure: u64,
}

/// The number of positions where reference and prediction agree, over
/// the first `n`.
pub open spec fn count_eq(a: Seq<Seq<char>>, b: Seq<Seq<char>>, n: int) -> int
    decreases n,
{
    if n <= 0 {
        0
    } else {
        count_eq(a, b, n - 1) + (if a[n - 1] == b[n - 1] {
            1int
        } else {
            0int
        })
    }
}


/// The first index of `key` among the label entries.
pub open spec fn tbl_index_of(tbl: Seq<(String, LabelMeasure)>, key: Seq<char>, n: int) -> Option<
    int,
>
    decreases n,
{
    if n <= 0 {
        None
    } else {
        match tbl_index_of(tbl, key, n - 1) {
            Option::Some(i) => Option::Some(i),
            Option::None => if tbl[n - 1].0@ == key {
                Option::Some(n - 1)
            } else {
                Option::None
            },
        }
    }
}

/// A found first index lies in range and holds the key.
pub proof fn lemma_tbl_index_bound(tbl: Seq<(String, LabelMeasure)>, key: Seq<char>, n: int)
    requires
        n <= tbl.len(),
    ensures
        match tbl_index_of(tbl, key, n) {
            Option::Some(i) => 0 <= i < n && tbl[i].0@ == key,
            Option::None => forall|k: int| 0 <= k < n ==> (#[trigger] tbl[k]).0@ != key,
        },
    decreases n,
{
    if n > 0 {
        lemma_tbl_index_bound(tbl, key, n - 1);
    }
}

/// If no index below `i` holds `key` and index `i` does, the first
/// index below any larger bound is `i`.
pub proof fn lemma_tbl_index_extend(tbl: Seq<(String, LabelMeasure)>, key: Seq<char>, i: int, n: int)
    requires
        0 <= i < n <= tbl.len(),
        tbl_index_of(tbl, key, i) == Option::<int>::None,
        tbl[i].0@ == key,
    ensures
        tbl_index_of(tbl, key, n) == Option::Some(i),
    decreases n,
{
    if n == i + 1 {
    } else {
        lemma_tbl_index_extend(tbl, key, i, n - 1);
    }
}

/// A zeroed measure.
pub open spec fn fresh_measure() -> LabelMeasure {
    LabelMeasure {
        num_correct: 0,
        num_observation: 0,
        num_prediction: 0,
        precision: F_ZERO,
        recall: F_ZERO,
        fmeasure: F_ZERO,
    }
}

/// The saturating counter sum.
pub open spec fn sat_add(a: int, b: int) -> int {
    if a + b <= usize::MAX {
        a + b
    } else {
        usize::MAX as int
    }
}

/// A measure with one counter bumped (saturating): 0 the observations,
/// 1 the predictions, 2 the matches.
pub open spec fn bumped(m: LabelMeasure, which: int) -> LabelMeasure {
    if which == 0 {
        LabelMeasure { num_observation: sat_add(m.num_observation as int, 1) as usize, ..m }
    } else if which == 1 {
        LabelMeasure { num_prediction: sat_add(m.num_prediction as int, 1) as usize, ..m }
    } else {
        LabelMeasure { num_correct: sat_add(m.num_correct as int, 1) as usize, ..m }
    }
}

/// A measure with its ratios computed from its counters: skipped when
/// nothing was observed; precision zero when nothing was predicted;
/// the F-measure zero when precision and recall sum to zero.
pub open spec fn eval_measure(m: LabelMeasure) -> LabelMeasure {
    if m.num_observation == 0 {
        m
    } else {
        let p = if m.num_prediction > 0 {
            fdiv(f_of_int(m.num_correct as u64), f_of_int(m.num_prediction as u64))
        } else {
            F_ZERO
        };
        let r = fdiv(f_of_int(m.num_correct as u64), f_of_int(m.num_observation as u64));
        let f = if flt(F_ZERO, fadd(p, r)) {
            fdiv(fmul(fmul(p, r), F_TWO_EVAL), fadd(p, r))
        } else {
            F_ZERO
        };
        LabelMeasure { precision: p, recall: r, fmeasure: f, ..m }
    }
}

/// The macro sums over the first `n` observed labels, folded in entry
/// order onto the initial values: the summed precisions, recalls and
/// F-measures, and the three summed totals.
pub open spec fn macro_fold(
    tbl: Seq<(String, LabelMeasure)>,
    init: (u64, u64, u64, int, int, int),
    n: int,
) -> (u64, u64, u64, int, int, int)
    decreases n,
{
    if n <= 0 {
        init
    } else {
        let prev = macro_fold(tbl, init, n - 1);
        let m = tbl[n - 1].1;
        if m.num_observation > 0 {
            let e = eval_measure(m);
            (
                fadd(prev.0, e.precision),
                fadd(prev.1, e.recall),
                fadd(prev.2, e.fmeasure),
                sat_add(prev.3, m.num_correct as int),
                sat_add(prev.4, m.num_prediction as int),
                sat_add(prev.5, m.num_observation as int),
            )
        } else {
            prev
        }
    }
}

/// Overall performance values.
#[derive(Debug)]
pub struct Evaluation {
    pub num_labels: usize,
    /// Label-wise measures, keyed by label string, in first-seen order.
    pub tbl: Vec<(String, LabelMeasure)>,
    pub item_total_correct: usize,
    pub item_total_num: usize,
    pub item_total_observation: usize,
    pub item_total_prediction: usize,
    pub item_accuracy: u64,
    pub inst_total_correct: usize,
    pub inst_total_num: usize,
    pub inst_accuracy: u64,
    pub macro_precision: u64,
    pub macro_recall: u64,
    pub macro_fmeasure: u64,
}

/// The overall precision and recall.
#[derive(Debug, Clone, Copy)]
pub struct Estimation {
    pub precision: u64,
    pub recall: u64,
}

impl Default for Evaluation {
    fn default() -> (r: Evaluation)
        ensures
            r.tbl@.len() == 0,
            r.item_total_num == 0,
            r.inst_total_num == 0,
    {
        Evaluation {
            num_labels: 0,
            tbl: Vec::new(),
            item_total_correct: 0,
            item_total_num: 0,
            item_total_observation: 0,
            item_total_prediction: 0,
            item_accuracy: F_ZERO,
            inst_total_correct: 0,
            inst_total_num: 0,
            inst_accuracy: F_ZERO,
            macro_precision: F_ZERO,
            macro_recall: F_ZERO,
            macro_fmeasure: F_ZERO,
        }
    }
}

impl Evaluation {
    /// Record one tagged sequence: per position, count the reference
    /// label as observed, the predicted label as predicted, and a match
    /// when they agree; the sequence counts as correct when every
    /// position matched.
    pub fn accumulate(&mut self, reference: &Vec<String>, prediction: &Vec<String>)
        requires
            reference@.len() == prediction@.len(),
            old(self).item_total_num + reference@.len() <= usize::MAX,
            old(self).inst_total_num < usize::MAX,
            old(self).inst_total_correct < usize::MAX,
        ensures
            final(self).item_total_num == old(self).item_total_num + reference@.len(),
            final(self).inst_total_num == old(self).inst_total_num + 1,
            final(self).inst_total_correct == old(self).inst_total_correct + (if count_eq(
                reference@.map_values(|s: String| s@),
                prediction@.map_values(|s: String| s@),
                reference@.len() as int,
            ) == prediction@.len() {
                1int
            } else {
                0int
            }),
            final(self).item_accuracy == old(self).item_accuracy,
            final(self).inst_accuracy == old(self).inst_accuracy,
            final(self).macro_precision == old(self).macro_precision,
            final(self).num_labels == old(self).num_labels,
    {
        let ghost rs = reference@.map_values(|s: String| s@);
        let ghost ps = prediction@.map_values(|s: String| s@);
        let n = reference.len();
        let mut matched: usize = 0;
        let mut i: usize = 0;
        while i < n
            invariant
                i <= n,
                n == reference@.len(),
                n == prediction@.len(),
                rs == reference@.map_values(|s: String| s@),
                ps == prediction@.map_values(|s: String| s@),
                matched == count_eq(rs, ps, i as int),
                matched <= i,
                self.item_total_num == old(self).item_total_num + i,
                self.inst_total_num == old(self).inst_total_num,
                self.inst_total_correct == old(self).inst_total_correct,
                self.item_total_num <= usize::MAX - (n - i),
                self.inst_total_num < usize::MAX,
                self.item_accuracy == old(self).item_accuracy,
                self.inst_accuracy == old(self).inst_accuracy,
                self.macro_precision == old(self).macro_precision,
                self.num_labels == old(self).num_labels,
            decreases n - i,
        {
            bump_observation(&mut self.tbl, &reference[i]);
            bump_prediction(&mut self.tbl, &prediction[i]);
            if reference[i] == prediction[i] {
                bump_correct(&mut self.tbl, &reference[i]);
                matched += 1;
            }
            self.item_total_num += 1;
            i += 1;
        }
        if matched == n {
            self.inst_total_correct += 1;
        }
        self.inst_total_num += 1;
    }

    /// Compute the label-wise and overall ratios from the counts and
    /// return the macro-averaged precision and recall.  Labels never
    /// observed in the reference are skipped; their entries stay as they
    /// are.  The macro averages divide the summed ratios by the label
    /// count, and the accuracies divide the summed matches by the
    /// totals.
    #[verifier::rlimit(60)]
    pub fn evaluate(&mut self) -> (r: Estimation)
        requires
            old(self).num_labels <= u64::MAX,
        ensures
            final(self).tbl@.len() == old(self).tbl@.len(),
            forall|i: int|
                0 <= i < final(self).tbl@.len() ==> #[trigger] final(self).tbl@[i] == (
                old(self).tbl@[i].0,
                eval_measure(old(self).tbl@[i].1),
                ),
            ({
                let mf = macro_fold(
                    old(self).tbl@,
                    (
                        old(self).macro_precision,
                        old(self).macro_recall,
                        old(self).macro_fmeasure,
                        old(self).item_total_correct as int,
                        old(self).item_total_prediction as int,
                        old(self).item_total_observation as int,
                    ),
                    old(self).tbl@.len() as int,
                );
                let nl = f_of_int(old(self).num_labels as u64);
                &&& final(self).macro_precision == fdiv(mf.0, nl)
                &&& final(self).macro_recall == fdiv(mf.1, nl)
                &&& final(self).macro_fmeasure == fdiv(mf.2, nl)
                &&& final(self).item_total_correct == mf.3
                &&& final(self).item_total_prediction == mf.4
                &&& final(self).item_total_observation == mf.5
                &&& final(self).item_accuracy == (if old(self).item_total_num > 0 {
                    fdiv(f_of_int(mf.3 as u64), f_of_int(old(self).item_total_num as u64))
                } else {
                    old(self).item_accuracy
                })
            }),
            final(self).inst_accuracy == (if old(self).inst_total_num > 0 {
                fdiv(
                    f_of_int(old(self).inst_total_correct as u64),
                    f_of_int(old(self).inst_total_num as u64),
                )
            } else {
                old(self).inst_accuracy
            }),
            final(self).num_labels == old(self).num_labels,
            final(self).item_total_num == old(self).item_total_num,
            final(self).inst_total_num == old(self).inst_total_num,
            final(self).inst_total_correct == old(self).inst_total_correct,
            r.precision == final(self).macro_precision,
            r.recall == final(self).macro_recall,
    {
        let ghost tbl0 = self.tbl@;
        let ghost init = (
            self.macro_precision,
            self.macro_recall,
            self.macro_fmeasure,
            self.item_total_correct as int,
            self.item_total_prediction as int,
            self.item_total_observation as int,
        );
        let n = self.tbl.len();
        let mut i: usize = 0;
        while i < n
            invariant
                i <= n,
                n == tbl0.len(),
                self.tbl@.len() == n,
                self.num_labels == old(self).num_labels,
                self.num_labels <= u64::MAX,
                self.item_total_num == old(self).item_total_num,
                self.inst_total_num == old(self).inst_total_num,
                self.inst_total_correct == old(self).inst_total_correct,
                self.item_accuracy == old(self).item_accuracy,
                self.inst_accuracy == old(self).inst_accuracy,
                tbl0 == old(self).tbl@,
                init == (
                    old(self).macro_precision,
                    old(self).macro_recall,
                    old(self).macro_fmeasure,
                    old(self).item_total_correct as int,
                    old(self).item_total_prediction as int,
                    old(self).item_total_observation as int,
                ),
                forall|k: int|
                    0 <= k < i ==> #[trigger] self.tbl@[k] == (tbl0[k].0, eval_measure(tbl0[k].1)),
                forall|k: int| i <= k < n ==> #[trigger] self.tbl@[k] == tbl0[k],
                (
                    self.macro_precision,
                    self.macro_recall,
                    self.macro_fmeasure,
                    self.item_total_correct as int,
                    self.item_total_prediction as int,
                    self.item_total_observation as int,
                ) == macro_fold(tbl0, init, i as int),
            decreases n - i,
        {
            let obs = self.tbl[i].1.num_observation;
            if obs > 0 {
                let correct = self.tbl[i].1.num_correct;
                let pred = self.tbl[i].1.num_prediction;
                self.item_total_correct = add_saturating(self.item_total_correct, correct);
                self.item_total_prediction = add_saturating(self.item_total_prediction, pred);
                self.item_total_observation = add_saturating(self.item_total_observation, obs);
                let mut precision: u64 = F_ZERO;
                let recall: u64 = fdiv_x(f_of_int_x(correct as u64), f_of_int_x(obs as u64));
                let mut fm: u64 = F_ZERO;
                if pred > 0 {
                    precision = fdiv_x(f_of_int_x(correct as u64), f_of_int_x(pred as u64));
                }
                if flt_x(F_ZERO, fadd_x(precision, recall)) {
                    fm = fdiv_x(
                        fmul_x(fmul_x(precision, recall), F_TWO_EVAL),
                        fadd_x(precision, recall),
                    );
                }
                let mut entry = self.tbl[i].1.clone();
                entry.precision = precision;
                entry.recall = recall;
                entry.fmeasure = fm;
                let key = self.tbl[i].0.clone();
                self.tbl.set(i, (key, entry));
                self.macro_precision = fadd_x(self.macro_precision, precision);
                self.macro_recall = fadd_x(self.macro_recall, recall);
                self.macro_fmeasure = fadd_x(self.macro_fmeasure, fm);
            }
            i += 1;
        }
        let nl = f_of_int_x(self.num_labels as u64);
        self.macro_precision = fdiv_x(self.macro_precision, nl);
        self.macro_recall = fdiv_x(self.macro_recall, nl);
        self.macro_fmeasure = fdiv_x(self.macro_fmeasure, nl);
        if self.item_total_num > 0 {
            self.item_accuracy = fdiv_x(
                f_of_int_x(self.item_total_correct as u64),
                f_of_int_x(self.item_total_num as u64),
            );
        }
        if self.inst_total_num > 0 {
            self.inst_accuracy = fdiv_x(
                f_of_int_x(self.inst_total_correct as u64),
                f_of_int_x(self.inst_total_num as u64),
            );
        }
        Estimation { precision: self.macro_precision, recall: self.macro_recall }
    }
}

/// Saturating addition of counters.
fn add_saturating(a: usize, b: usize) -> (r: usize)
    ensures
        r == sat_add(a as int, b as int),
{
    if a <= usize::MAX - b {
        a + b
    } else {
        usize::MAX
    }
}

/// Find the measure of a label, adding a fresh one when absent, and
/// bump its observation count.
fn bump_observation(tbl: &mut Vec<(String, LabelMeasure)>, key: &String)
    ensures
        match tbl_index_of(old(tbl)@, key@, old(tbl)@.len() as int) {
            Option::Some(i) => final(tbl)@ == old(tbl)@.update(
                i,
                (old(tbl)@[i].0, bumped(old(tbl)@[i].1, 0)),
            ),
            Option::None => {
                &&& final(tbl)@.len() == old(tbl)@.len() + 1
                &&& final(tbl)@.subrange(0, old(tbl)@.len() as int) == old(tbl)@
                &&& final(tbl)@.last().0@ == key@
                &&& final(tbl)@.last().1 == bumped(fresh_measure(), 0)
            },
        },
{
    let i = find_entry(tbl, key);
    let mut e = tbl[i].1.clone();
    if e.num_observation < usize::MAX {
        e.num_observation += 1;
    }
    let k = tbl[i].0.clone();
    tbl.set(i, (k, e));
    proof {
        if tbl_index_of(old(tbl)@, key@, old(tbl)@.len() as int) is None {
            assert(tbl@.subrange(0, old(tbl)@.len() as int) =~= old(tbl)@);
        }
    }
}

/// Find the measure of a label, adding a fresh one when absent, and
/// bump its prediction count.
fn bump_prediction(tbl: &mut Vec<(String, LabelMeasure)>, key: &String)
    ensures
        match tbl_index_of(old(tbl)@, key@, old(tbl)@.len() as int) {
            Option::Some(i) => final(tbl)@ == old(tbl)@.update(
                i,
                (old(tbl)@[i].0, bumped(old(tbl)@[i].1, 1)),
            ),
            Option::None => {
                &&& final(tbl)@.len() == old(tbl)@.len() + 1
                &&& final(tbl)@.subrange(0, old(tbl)@.len() as int) == old(tbl)@
                &&& final(tbl)@.last().0@ == key@
                &&& final(tbl)@.last().1 == bumped(fresh_measure(), 1)
            },
        },
{
    let i = find_entry(tbl, key);
    let mut e = tbl[i].1.clone();
    if e.num_prediction < usize::MAX {
        e.num_prediction += 1;
    }
    let k = tbl[i].0.clone();
    tbl.set(i, (k, e));
    proof {
        if tbl_index_of(old(tbl)@, key@, old(tbl)@.len() as int) is None {
            assert(tbl@.subrange(0, old(tbl)@.len() as int) =~= old(tbl)@);
        }
    }
}

/// Find the measure of a label, adding a fresh one when absent, and
/// bump its correct count.
fn bump_correct(tbl: &mut Vec<(String, LabelMeasure)>, key: &String)
    ensures
        match tbl_index_of(old(tbl)@, key@, old(tbl)@.len() as int) {
            Option::Some(i) => final(tbl)@ == old(tbl)@.update(
                i,
                (old(tbl)@[i].0, bumped(old(tbl)@[i].1, 2)),
            ),
            Option::None => {
                &&& final(tbl)@.len() == old(tbl)@.len() + 1
                &&& final(tbl)@.subrange(0, old(tbl)@.len() as int) == old(tbl)@
                &&& final(tbl)@.last().0@ == key@
                &&& final(tbl)@.last().1 == bumped(fresh_measure(), 2)
            },
        },
{
    let i = find_entry(tbl, key);
    let mut e = tbl[i].1.clone();
    if e.num_correct < usize::MAX {
        e.num_correct += 1;
    }
    let k = tbl[i].0.clone();
    tbl.set(i, (k, e));
    proof {
        if tbl_index_of(old(tbl)@, key@, old(tbl)@.len() as int) is None {
            assert(tbl@.subrange(0, old(tbl)@.len() as int) =~= old(tbl)@);
        }
    }
}

/// The index of a label's entry -- the first holding the key --
/// appending a zeroed one when absent.
fn find_entry(tbl: &mut Vec<(String, LabelMeasure)>, key: &String) -> (r: usize)
    ensures
        r < final(tbl)@.len(),
        match tbl_index_of(old(tbl)@, key@, old(tbl)@.len() as int) {
            Option::Some(i) => final(tbl)@ == old(tbl)@ && r == i,
            Option::None => {
                &&& final(tbl)@.len() == old(tbl)@.len() + 1
                &&& final(tbl)@.subrange(0, old(tbl)@.len() as int) == old(tbl)@
                &&& final(tbl)@.last().0@ == key@
                &&& final(tbl)@.last().1 == fresh_measure()
                &&& r == old(tbl)@.len()
            },
        },
{
    let n = tbl.len();
    let mut i: usize = 0;
    while i < n
        invariant
            i <= n,
            n == tbl@.len(),
            tbl@ == old(tbl)@,
            tbl_index_of(tbl@, key@, i as int) == Option::<int>::None,
        decreases n - i,
    {
        if tbl[i].0 == *key {
            proof {
                lemma_tbl_index_extend(tbl@, key@, i as int, n as int);
            }
            return i;
        }
        i += 1;
    }
    tbl.push(
        (
            key.clone(),
            LabelMeasure {
                num_correct: 0,
                num_observation: 0,
                num_prediction: 0,
                precision: F_ZERO,
                recall: F_ZERO,
                fmeasure: F_ZERO,
            },
        ),
    );
    proof {
        assert(tbl@.subrange(0, old(tbl)@.len() as int) =~= old(tbl)@);
    }
    n
}

} // verus!
