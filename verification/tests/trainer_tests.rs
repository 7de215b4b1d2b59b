use crfsuite::context::ResetOpt;
use crfsuite::dataset::{Attr, Dataset, Sequence};
use crfsuite::encoder::{gradient_init, logl_step, Crf1dEncoder};
use crfsuite::features::{Feat, FeatType};
use crfsuite::model::{save_model_r, Crf1dModel};
use crfsuite::tagger::Crf1dTagger;
use crfsuite::trainer::{
    check_trainable, descent_ok, fdot, gnorm_converged, halve_step, l2_regularize,
    linesearch_candidate, linesearch_decide, owlqn_align, owlqn_project,
    owlqn_pseudo_gradient, LineSearchStep, OptState, ParamValue, Trainer,
};
use crfsuite::CrfError;
use lbfgs::Lbfgs;

fn dataset_from_text(text: &str) -> Dataset {
    let mut ds = Dataset::default();
    let mut seq = Sequence::default();
    for line in text.lines() {
        let line = line.trim_start_matches(' ');
        if !line.is_empty() {
            if let Some((label, attrs)) = crfsuite::dataset::parse_line(line) {
                ds.intern_item(label.as_str(), &attrs, &mut seq);
            }
        } else if seq.len() > 0 {
            ds.push_seq(seq);
            seq = Sequence::default();
        }
    }
    if seq.len() > 0 {
        ds.push_seq(seq);
    }
    ds
}

#[test]
fn set_data() {
    let mut o = Crf1dEncoder::new();
    assert_eq!(o.num_features(), 0);
    assert_eq!(o.num_labels(), 0);
    let s = "P\thello\tworld
        Q\thi\tthere\n\n";
    let ds = dataset_from_text(s);
    o.set_data(&ds);
    assert_eq!(o.num_labels(), 2);
    assert_eq!(o.num_features(), 8);
    assert_eq!(o.attrs.len(), 4);
    assert_eq!(o.forward_trans.len(), 2);
}

#[test]
fn feat() {
    assert_eq!(1, std::mem::size_of::<FeatType>());
    assert_eq!(24, std::mem::size_of::<Feat>());
}

#[test]
fn objective_and_gradients_batch() {
    let yseq = [
        "sunny", "sunny", "sunny", "rainy", "rainy", "rainy", "sunny", "sunny", "rainy",
    ];
    let o = Crf1dEncoder::new();
    let _ = (yseq, o);
}

#[test]
fn dataset_from_lines() {
    let s = "P\thello\tworld
        Q\thi\ttherer\n\n";
    let ds = dataset_from_text(s);
    assert_eq!(ds.len(), 1);
    assert_eq!(ds.num_attrs(), 4);
    assert_eq!(ds.num_labels(), 2);
}

/// Appending an empty sequence is rejected with `Empty` and leaves the
/// trainer unchanged.
#[test]
fn empty_sequence_rejected() {
    let mut tr = Trainer::new();
    let before = tr.data.seqs.len();
    match tr.append(Vec::new(), Vec::new(), 0) {
        Err(CrfError::Empty) => {}
        _ => panic!("test fail"),
    }
    assert_eq!(tr.data.seqs.len(), before);
    match tr.append(vec![Vec::new()], Vec::new(), 0) {
        Err(CrfError::ShapeMismatch) => {}
        _ => panic!("test fail"),
    }
}

#[test]
fn unknown_param_rejected() {
    let mut tr = Trainer::new();
    match tr.set("no_such_knob", ParamValue::Int(1)) {
        Err(CrfError::UnknownParam) => {}
        _ => panic!("test fail"),
    }
    match tr.set("c2", ParamValue::Int(1)) {
        Err(CrfError::BadValue) => {}
        _ => panic!("test fail"),
    }
    tr.set("c2", ParamValue::Real((0.5f64).to_bits())).unwrap();
}

/// One objective-and-gradient evaluation of the whole batch, with the
/// elementwise exponentials and logarithms computed here; everything
/// else is the library's verified arithmetic.
fn evaluate(enc: &mut Crf1dEncoder, data: &Dataset, w: &Vec<u64>, c1: f64, c2: f64) -> (u64, Vec<u64>) {
    let k = enc.num_features();
    let l = enc.num_labels();
    let feats = enc.features.clone();
    let mut g = vec![0u64; k];
    gradient_init(&mut g, &feats);
    enc.ctx.reset(ResetOpt::trans_only());
    enc.transition_score(w);
    let et: Vec<u64> = (0..l * l)
        .map(|i| f64::from_bits(enc.ctx.trans[i]).exp().to_bits())
        .collect();
    enc.ctx.exp_transition(&et);
    let mut logl = 0u64;
    for si in 0..data.seqs.len() {
        let seq = &data.seqs[si];
        let t = seq.items.len();
        enc.ctx.resize(t);
        enc.ctx.reset(ResetOpt::state_only());
        enc.state_score(seq, w);
        let es: Vec<u64> = (0..t * l)
            .map(|i| f64::from_bits(enc.ctx.state[i]).exp().to_bits())
            .collect();
        enc.ctx.exp_state(&es);
        enc.ctx.alpha_score();
        let lns: Vec<u64> = (0..t)
            .map(|i| f64::from_bits(enc.ctx.scale_factor[i]).ln().to_bits())
            .collect();
        enc.ctx.set_log_norm(&lns);
        enc.ctx.beta_score();
        enc.ctx.marginals();
        let sc = enc.ctx.score(&seq.labels);
        logl = logl_step(logl, sc, enc.ctx.lognorm(), seq.weight);
        enc.model_expectation(seq, &mut g, seq.weight);
    }
    let mut f = (-f64::from_bits(logl)).to_bits();
    if c2 > 0.0 {
        f = l2_regularize(f, w, &mut g, c2.to_bits());
    }
    if c1 > 0.0 {
        let (f1, pg) = owlqn_pseudo_gradient(f, w, &g, c1.to_bits());
        (f1, pg)
    } else {
        (f, g)
    }
}

/// Minimize the regularized objective: the curvature-buffer direction
/// comes from the `lbfgs` crate; every decision and arithmetic step of
/// the loop is the library's.
fn train_weights(enc: &mut Crf1dEncoder, data: &Dataset, c1: f64, c2: f64, max_iter: usize) -> Vec<u64> {
    let k = enc.num_features();
    check_trainable(data.seqs.len(), k).expect("nothing to train");
    let x0 = vec![0f64.to_bits(); k];
    let (f0, g0) = evaluate(enc, data, &x0, c1, c2);
    let mut st = OptState::start(x0, f0, g0);
    let mut lb: Lbfgs<f64> = Lbfgs::new(k, 6);
    let max_trials = 20;
    'outer: for _ in 0..max_iter {
        // Direction from the outside curvature buffer.
        let gf: Vec<f64> = st.g.iter().map(|b| f64::from_bits(*b)).collect();
        let xf: Vec<f64> = st.x.iter().map(|b| f64::from_bits(*b)).collect();
        lb.update_hessian(&gf, &xf);
        let mut df = gf.clone();
        lb.apply_hessian(&mut df);
        let mut d: Vec<u64> = df.iter().map(|v| (-v).to_bits()).collect();
        if c1 > 0.0 {
            owlqn_align(&mut d, &st.g);
        }
        let gdd = fdot(&st.g, &d);
        if !descent_ok(gdd) {
            break;
        }
        let mut step = 1.0f64.to_bits();
        let mut trials = 0usize;
        loop {
            let mut xn = linesearch_candidate(&st.x, &d, step);
            if c1 > 0.0 {
                owlqn_project(&mut xn, &st.x, &st.g);
            }
            let (f_new, gn) = evaluate(enc, data, &xn, c1, c2);
            match linesearch_decide(f_new, st.fx, step, gdd, trials, max_trials) {
                LineSearchStep::Accept => {
                    st.accept(xn, f_new, gn);
                    break;
                }
                LineSearchStep::Shrink => {
                    step = halve_step(step);
                    trials += 1;
                }
                LineSearchStep::GiveUp => {
                    break 'outer;
                }
            }
        }
        let gnorm2 = fdot(&st.g, &st.g);
        let xnorm2 = fdot(&st.x, &st.x);
        if gnorm_converged(gnorm2, xnorm2, 1e-5f64.to_bits()) {
            break;
        }
    }
    st.best_w
}

fn weather_dataset() -> Dataset {
    let xseq: Vec<Vec<(&str, f64)>> = vec![
        vec![("walk", 1.0), ("shop", 0.5)],
        vec![("walk", 1.0)],
        vec![("walk", 1.0), ("clean", 0.5)],
        vec![("shop", 0.5), ("clean", 0.5)],
        vec![("walk", 0.5), ("clean", 1.0)],
        vec![("clean", 1.0), ("shop", 0.1)],
        vec![("walk", 1.0), ("shop", 0.5)],
        vec![],
        vec![("clean", 1.0)],
    ];
    let yseq = [
        "sunny", "sunny", "sunny", "rainy", "rainy", "rainy", "sunny", "sunny", "rainy",
    ];
    let mut ds = Dataset::default();
    let mut seq = Sequence::default();
    for (item, label) in xseq.iter().zip(yseq.iter()) {
        let attrs: Vec<Attr> = item
            .iter()
            .map(|&(name, v)| Attr {
                id: ds.m_attrs.find_or_insert(name) as u32,
                value: v.to_bits(),
            })
            .collect();
        let lid = ds.m_labels.find_or_insert(label);
        seq.push(attrs, lid);
    }
    ds.push_seq(seq);
    ds
}

fn train_weather_model(c1: f64, c2: f64) -> (Crf1dModel, Dataset) {
    let ds = weather_dataset();
    let mut enc = Crf1dEncoder::new();
    enc.set_data(&ds);
    let w = train_weights(&mut enc, &ds, c1, c2, 50);
    let model = save_model_r(
        &w,
        &enc.features,
        &enc.attrs,
        &enc.forward_trans,
        &ds.m_labels.v,
        &ds.m_attrs.v,
    );
    (model, ds)
}

/// Train on the weather toy, persist and reload the model, and tag the
/// training items: the gold labels come back.
#[test]
fn weather_toy_round_trip() {
    let (model, ds) = train_weather_model(0.0, 1.0);
    let bytes = model.to_bytes().expect("encode failed");
    let reloaded = Crf1dModel::from_memory(bytes).expect("decode failed");
    let mut tagger = Crf1dTagger::new(&reloaded);
    let seq = &ds.seqs[0];
    // The reloaded model's attribute ids are compacted: remap the input.
    let items: Vec<Vec<Attr>> = seq
        .items
        .iter()
        .map(|item| {
            item.iter()
                .filter_map(|a| {
                    let name = ds.m_attrs.to_str(a.id as usize).unwrap();
                    reloaded
                        .attrs
                        .to_id(name)
                        .map(|nid| Attr { id: nid as u32, value: a.value })
                })
                .collect()
        })
        .collect();
    let input = Sequence { items, labels: vec![0; seq.labels.len()], weight: (1.0f64).to_bits(), group: 0 };
    let got = tagger.tag(&input);
    let want: Vec<usize> = seq
        .labels
        .iter()
        .map(|&lid| {
            let name = ds.m_labels.to_str(lid).unwrap();
            reloaded.labels.to_id(name).unwrap()
        })
        .collect();
    assert_eq!(got, want);
}

/// Orthant-wise L1 training yields a strictly sparser weight vector
/// than L2 training on the same data.
#[test]
fn l1_is_sparser_than_l2() {
    let ds = weather_dataset();
    let mut enc = Crf1dEncoder::new();
    enc.set_data(&ds);
    let w_l2 = train_weights(&mut enc, &ds, 0.0, 1.0, 50);
    let mut enc2 = Crf1dEncoder::new();
    enc2.set_data(&ds);
    let w_l1 = train_weights(&mut enc2, &ds, 1.0, 0.0, 50);
    let nz = |w: &Vec<u64>| w.iter().filter(|b| f64::from_bits(**b) != 0.0).count();
    assert!(nz(&w_l1) < nz(&w_l2), "l1 = {}, l2 = {}", nz(&w_l1), nz(&w_l2));
}
