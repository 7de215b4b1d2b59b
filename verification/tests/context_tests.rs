use crfsuite::context::{Crf1dContext, CtxOpt, ResetOpt};

#[test]
fn init() {
    let l = 9;
    let t = 12;
    let ctx = Crf1dContext::new(CtxOpt::all(), l, t);
    assert_eq!(ctx.num_items(), 0);
    assert_eq!(ctx.cap_items(), 12);
}

#[test]
fn reset() {
    let l = 9;
    let t = 12;
    let mut ctx = Crf1dContext::new(CtxOpt::all(), l, t);
    assert_eq!(ctx.num_items(), 0);
    assert_eq!(ctx.cap_items(), t);
    ctx.reset(ResetOpt::state_only());
    assert_eq!(f64::from_bits(ctx.lognorm()), 0.0);
}

#[test]
fn alpha_score() {
    let mut ctx = Crf1dContext::new(CtxOpt::all(), 31, 0);
    ctx.resize(127);
    let vals: Vec<u64> = (0..127 * 31).map(|i| (i as f64).to_bits()).collect();
    ctx.exp_state(&vals);
    ctx.alpha_score();
    let lns: Vec<u64> = (0..127)
        .map(|t| f64::from_bits(ctx.scale_factor[t]).ln().to_bits())
        .collect();
    ctx.set_log_norm(&lns);
    assert_eq!(f64::from_bits(ctx.lognorm()), 6.142037405587356);
}

#[test]
fn exp_math() {
    let e = 2.71828182845904523536028747135266250_f64;
    println!("{}", (e).exp());
}

#[test]
fn flags() {
    let color = CtxOpt::viterbi_only();
    let mixed = CtxOpt::all();
    println!("{:?}, mixed: {:?}", color, mixed);
}

#[test]
fn math() {
    let f = 12.34_f64;
    println!("{}", f.exp());
}

/// Run the forward/backward pipeline of a context whose scores were set
/// by the caller, computing the exponentials and logarithms here.
fn run_forward_backward(ctx: &mut Crf1dContext, t: usize, l: usize) {
    let es: Vec<u64> = (0..t * l)
        .map(|i| f64::from_bits(ctx.state[i]).exp().to_bits())
        .collect();
    ctx.exp_state(&es);
    let et: Vec<u64> = (0..l * l)
        .map(|i| f64::from_bits(ctx.trans[i]).exp().to_bits())
        .collect();
    ctx.exp_transition(&et);
    ctx.alpha_score();
    let lns: Vec<u64> = (0..t)
        .map(|i| f64::from_bits(ctx.scale_factor[i]).ln().to_bits())
        .collect();
    ctx.set_log_norm(&lns);
    ctx.beta_score();
    ctx.marginals();
}

fn toy_context() -> (Crf1dContext, usize, usize) {
    let l = 2;
    let t = 3;
    let mut ctx = Crf1dContext::new(CtxOpt::all(), l, t);
    ctx.resize(t);
    ctx.reset(ResetOpt::all());
    let state: [f64; 6] = [0.5, -0.2, 1.5, 0.3, -0.6, 0.9];
    let trans: [f64; 4] = [0.2, -0.1, 0.4, 0.7];
    for i in 0..t * l {
        ctx.state[i] = state[i].to_bits();
    }
    for i in 0..l * l {
        ctx.trans[i] = trans[i].to_bits();
    }
    (ctx, t, l)
}

/// Every path probability summed over all label paths is one.
#[test]
fn path_probabilities_sum_to_one() {
    let (mut ctx, t, l) = toy_context();
    run_forward_backward(&mut ctx, t, l);
    let logz = f64::from_bits(ctx.lognorm());
    let mut total = 0.0;
    for p0 in 0..l {
        for p1 in 0..l {
            for p2 in 0..l {
                let path = vec![p0, p1, p2];
                let s = f64::from_bits(ctx.score(&path));
                total += (s - logz).exp();
            }
        }
    }
    assert!((total - 1.0).abs() < 1e-9, "total = {total}");
}

/// The forward and backward matrices satisfy the per-position marginal
/// identity.
#[test]
fn alpha_beta_marginal_identity() {
    let (mut ctx, t, l) = toy_context();
    run_forward_backward(&mut ctx, t, l);
    for pos in 0..t {
        let mut s = 0.0;
        for i in 0..l {
            s += f64::from_bits(ctx.alpha_score[pos * l + i])
                * f64::from_bits(ctx.beta_score[pos * l + i])
                / f64::from_bits(ctx.scale_factor[pos]);
        }
        assert!((s - 1.0).abs() < 1e-9, "t = {pos}, s = {s}");
    }
}

/// The Viterbi score equals the maximum path score.
#[test]
fn viterbi_is_max_score() {
    let (mut ctx, t, l) = toy_context();
    let mut labels = vec![0usize; t];
    let best = f64::from_bits(ctx.viterbi(&mut labels));
    let mut max_score = f64::NEG_INFINITY;
    let mut argmax = vec![0usize; t];
    for p0 in 0..l {
        for p1 in 0..l {
            for p2 in 0..l {
                let path = vec![p0, p1, p2];
                let s = f64::from_bits(ctx.score(&path));
                if s > max_score {
                    max_score = s;
                    argmax = path;
                }
            }
        }
    }
    assert_eq!(best, max_score);
    assert_eq!(labels, argmax);
}

/// A one-item sequence: Viterbi picks the argmax of the first state row
/// and the log-partition value is the log-sum-exp of that row.
#[test]
fn single_item_boundary() {
    let l = 3;
    let mut ctx = Crf1dContext::new(CtxOpt::all(), l, 1);
    ctx.resize(1);
    ctx.reset(ResetOpt::all());
    let state: [f64; 3] = [0.3, 1.7, -0.4];
    for i in 0..l {
        ctx.state[i] = state[i].to_bits();
    }
    let mut labels = vec![0usize; 1];
    ctx.viterbi(&mut labels);
    assert_eq!(labels, vec![1]);
    run_forward_backward(&mut ctx, 1, l);
    let logz = f64::from_bits(ctx.lognorm());
    let expect = state.iter().map(|x| x.exp()).sum::<f64>().ln();
    assert!((logz - expect).abs() < 1e-12, "{logz} vs {expect}");
}

/// A single-label alphabet: Viterbi returns all zeros and the
/// log-partition value is the sum of the state scores.
#[test]
fn single_label_boundary() {
    let l = 1;
    let t = 4;
    let mut ctx = Crf1dContext::new(CtxOpt::all(), l, t);
    ctx.resize(t);
    ctx.reset(ResetOpt::all());
    let state: [f64; 4] = [0.25, -1.5, 2.0, 0.75];
    for i in 0..t {
        ctx.state[i] = state[i].to_bits();
    }
    let mut labels = vec![9usize; t];
    ctx.viterbi(&mut labels);
    assert_eq!(labels, vec![0, 0, 0, 0]);
    run_forward_backward(&mut ctx, t, l);
    let logz = f64::from_bits(ctx.lognorm());
    let expect: f64 = state.iter().sum();
    assert!((logz - expect).abs() < 1e-12, "{logz} vs {expect}");
}
