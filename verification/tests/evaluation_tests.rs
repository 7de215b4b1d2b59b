use crfsuite::dataset::Dataset;
use crfsuite::dataset::Sequence;
use crfsuite::evaluation::Evaluation;
use crfsuite::features::{crf1df_generate, FeatType};

#[test]
fn accumulate_and_evaluate_counts() {
    let mut eval = Evaluation::default();
    eval.num_labels = 2;
    let reference = vec!["a".to_string(), "b".to_string(), "a".to_string()];
    let prediction = vec!["a".to_string(), "a".to_string(), "a".to_string()];
    eval.accumulate(&reference, &prediction);
    eval.accumulate(&reference, &reference);
    assert_eq!(eval.item_total_num, 6);
    assert_eq!(eval.inst_total_num, 2);
    assert_eq!(eval.inst_total_correct, 1);
    let est = eval.evaluate();
    assert_eq!(eval.item_total_correct, 5);
    // Label "a": 4 correct over 5 predictions and 4 observations;
    // label "b": 1 correct over 1 prediction and 2 observations.
    let macro_precision = (4.0f64 / 5.0 + 1.0 / 1.0) / 2.0;
    let macro_recall = (4.0f64 / 4.0 + 1.0 / 2.0) / 2.0;
    assert_eq!(f64::from_bits(est.precision), macro_precision);
    assert_eq!(f64::from_bits(est.recall), macro_recall);
    assert_eq!(f64::from_bits(eval.item_accuracy), 5.0 / 6.0);
}

/// With `connect_all_edges` the generated table holds exactly L * L
/// transition features, zero-frequency pairs included.
#[test]
fn possible_transitions_count() {
    let mut ds = Dataset::default();
    let mut seq = Sequence::default();
    ds.intern_item("sunny", &vec!["walk".to_string()], &mut seq);
    ds.intern_item("rainy", &vec!["clean".to_string()], &mut seq);
    ds.intern_item("cloudy", &vec!["shop".to_string()], &mut seq);
    ds.push_seq(seq);
    let l = ds.num_labels();
    assert_eq!(l, 3);
    let feats = crf1df_generate(&ds, false, true, 0.0f64.to_bits());
    let trans = feats.iter().filter(|f| f.ftype == FeatType::FT_TRANS).count();
    assert_eq!(trans, l * l);
    let state = feats.iter().filter(|f| f.ftype == FeatType::FT_STATE).count();
    assert_eq!(state, 3);
}
