use embprop::aggregate::merge_grads;
use embprop::embedding::{Distance, EmbeddingStore};
use embprop::loss::GradMap;
use embprop::optimizer::{sgd, AdamOptimizer, MomentumOptimizer};

fn bits(v: &[f32]) -> Vec<u32> {
    v.iter().map(|x| x.to_bits()).collect()
}

fn floats(v: &[u32]) -> Vec<f32> {
    v.iter().map(|x| f32::from_bits(*x)).collect()
}

fn table_with(rows: &[&[f32]]) -> EmbeddingStore {
    let mut t = EmbeddingStore::new(rows.len(), rows[0].len(), Distance::Cosine);
    for (i, r) in rows.iter().enumerate() {
        t.set_embedding(i, bits(r));
    }
    t
}

#[test]
fn sgd_moves_rows_against_the_gradient() {
    let mut table = table_with(&[&[1.0, 2.0], &[3.0, 4.0]]);
    let mut grads = GradMap::new();
    grads.insert(1, bits(&[0.5, -0.5]));
    sgd(&mut table, &grads, 0.1f32.to_bits());
    // untouched row
    assert_eq!(floats(table.get_embedding(0)), vec![1.0, 2.0]);
    // 3 - 0.1*0.5, 4 - 0.1*(-0.5)
    assert_eq!(floats(table.get_embedding(1)), vec![3.0 - 0.05, 4.0 + 0.05]);
}

#[test]
fn momentum_with_zero_decay_is_plain_gradient_descent() {
    let rows: &[&[f32]] = &[&[1.0, 2.0], &[3.0, 4.0]];
    let mut plain = table_with(rows);
    let mut with_momentum = table_with(rows);
    let mut grads = GradMap::new();
    grads.insert(0, bits(&[0.25, -1.5]));
    grads.insert(1, bits(&[2.0, 0.125]));
    let alpha = 0.5f32.to_bits();

    sgd(&mut plain, &grads, alpha);
    let mut opt = MomentumOptimizer::new(0f32.to_bits(), 2, 2);
    opt.update(&mut with_momentum, &grads, alpha);

    for i in 0..2 {
        assert_eq!(
            floats(plain.get_embedding(i)),
            floats(with_momentum.get_embedding(i))
        );
    }
}

#[test]
fn momentum_accumulates_velocity() {
    let mut table = table_with(&[&[0.0, 0.0]]);
    let mut opt = MomentumOptimizer::new(0.5f32.to_bits(), 2, 1);
    let mut grads = GradMap::new();
    grads.insert(0, bits(&[1.0, 2.0]));
    let alpha = 1f32.to_bits();
    opt.update(&mut table, &grads, alpha);
    // velocity = g; row = -g
    assert_eq!(floats(table.get_embedding(0)), vec![-1.0, -2.0]);
    opt.update(&mut table, &grads, alpha);
    // velocity = 0.5*g + g = 1.5*g; row = -g - 1.5*g
    assert_eq!(floats(table.get_embedding(0)), vec![-2.5, -5.0]);
}

#[test]
fn non_finite_gradients_are_skipped_entirely() {
    let rows: &[&[f32]] = &[&[1.0, 2.0]];
    let mut table = table_with(rows);
    let mut grads = GradMap::new();
    grads.insert(0, vec![f32::NAN.to_bits(), 1f32.to_bits()]);
    let alpha = 0.1f32.to_bits();

    sgd(&mut table, &grads, alpha);
    assert_eq!(floats(table.get_embedding(0)), vec![1.0, 2.0]);

    let mut mopt = MomentumOptimizer::new(0.9f32.to_bits(), 2, 1);
    mopt.update(&mut table, &grads, alpha);
    assert_eq!(floats(table.get_embedding(0)), vec![1.0, 2.0]);
    assert_eq!(floats(mopt.mom.get_embedding(0)), vec![0.0, 0.0]);

    let mut aopt = AdamOptimizer::new(0.9f32.to_bits(), 0.999f32.to_bits(), 2, 1);
    aopt.update(&mut table, &grads, alpha);
    assert_eq!(floats(table.get_embedding(0)), vec![1.0, 2.0]);
    assert_eq!(floats(aopt.mom.get_embedding(0)), vec![0.0, 0.0]);
    assert_eq!(floats(aopt.var.get_embedding(0)), vec![0.0, 0.0]);
}

#[test]
fn adam_first_step_matches_the_formula() {
    let mut table = table_with(&[&[1.0]]);
    let b1 = 0.9f32;
    let b2 = 0.999f32;
    let mut opt = AdamOptimizer::new(b1.to_bits(), b2.to_bits(), 1, 1);
    // epsilon is the default 1e-8
    assert_eq!(f32::from_bits(opt.eps), 1e-8f32);
    let g = 0.5f32;
    let mut grads = GradMap::new();
    grads.insert(0, bits(&[g]));
    let alpha = 0.1f32;
    opt.update(&mut table, &grads, alpha.to_bits());
    assert_eq!(opt.t, 1);

    let m = (1.0 - b1) * g;
    let v = (1.0 - b2) * (g * g);
    let mhat = m / (1.0 - b1);
    let vhat = v / (1.0 - b2);
    let expect = 1.0 - alpha * (mhat / (vhat.sqrt() + 1e-8));
    let got = floats(table.get_embedding(0))[0];
    assert!((got - expect).abs() <= 1e-6, "got {got}, expected {expect}");
}

#[test]
fn batch_aggregation_sums_contributions_elementwise() {
    let mut node_a = GradMap::new();
    node_a.insert(4, bits(&[1.0, 2.0]));
    node_a.insert(5, bits(&[10.0, 20.0]));
    let mut node_b = GradMap::new();
    node_b.insert(4, bits(&[0.5, 0.25]));

    let mut batch = GradMap::new();
    merge_grads(&mut batch, &node_a, 2);
    merge_grads(&mut batch, &node_b, 2);

    // the shared feature holds the elementwise sum of both contributions
    assert_eq!(floats(batch.get(4).unwrap()), vec![1.5, 2.25]);
    // the unshared feature holds its single contribution
    assert_eq!(floats(batch.get(5).unwrap()), vec![10.0, 20.0]);
    assert_eq!(batch.len(), 2);
}
