use embprop::fp;
use embprop::loss::{euclidean_distance, extract_grads, margin_loss, GradMap};
use embprop::model::FeatureMap;

fn bits(v: &[f32]) -> Vec<u32> {
    v.iter().map(|x| x.to_bits()).collect()
}

fn floats(v: &[u32]) -> Vec<f32> {
    v.iter().map(|x| f32::from_bits(*x)).collect()
}

#[test]
fn test_euclidean_dist() {
    let x = bits(&[1f32, 3f32]);
    let y = bits(&[3f32, 5f32]);
    let dist = euclidean_distance(&x, &y);
    assert_eq!(f32::from_bits(dist), (8f32).powf(0.5));
}

#[test]
fn margin_loss_zero_when_separated() {
    // dist(thv, hv) = 5, dist(thv, hu) = 10
    let thv = bits(&[0f32, 0f32]);
    let hv = bits(&[3f32, 4f32]);
    let hu = bits(&[6f32, 8f32]);
    // 5 + 1 <= 10: no loss
    let l = margin_loss(&thv, &hv, &hu, 1f32.to_bits());
    assert_eq!(f32::from_bits(l), 0.0);
    // boundary: 5 + 5 <= 10 still yields zero
    let l = margin_loss(&thv, &hv, &hu, 5f32.to_bits());
    assert_eq!(f32::from_bits(l), 0.0);
}

#[test]
fn margin_loss_positive_and_monotone_in_gamma() {
    let thv = bits(&[0f32, 0f32]);
    let hv = bits(&[3f32, 4f32]);
    let hu = bits(&[6f32, 8f32]);
    let l6 = f32::from_bits(margin_loss(&thv, &hv, &hu, 6f32.to_bits()));
    let l7 = f32::from_bits(margin_loss(&thv, &hv, &hu, 7f32.to_bits()));
    assert_eq!(l6, 1.0);
    assert_eq!(l7, 2.0);
    assert!(l6 > 0.0 && l7 > 0.0);
    assert!(l7 >= l6);
}

#[test]
fn extraction_never_double_counts_a_shared_feature() {
    // feature 7 takes part in two constructions; the first one wins
    let mut direct = FeatureMap::new();
    direct.add_feature(7);
    let mut recon = FeatureMap::new();
    recon.add_feature(7);
    recon.add_feature(9);

    let upstream_direct = bits(&[1.0, 2.0]);
    let upstream_recon = bits(&[100.0, 200.0]);

    let mut grads = GradMap::new();
    extract_grads(&mut grads, &direct, &upstream_direct, 1);
    extract_grads(&mut grads, &recon, &upstream_recon, 2);

    // feature 7 kept its share from the direct construction: (1/1)·upstream
    assert_eq!(floats(grads.get(7).unwrap()), vec![1.0, 2.0]);
    // feature 9 got its share of the reconstruction: (1/2)·upstream
    assert_eq!(floats(grads.get(9).unwrap()), vec![50.0, 100.0]);
    assert_eq!(grads.len(), 2);
}

#[test]
fn extraction_drops_non_finite_gradients() {
    let mut vars = FeatureMap::new();
    vars.add_feature(3);
    // 0/0 appears in the share: upstream NaN
    let upstream = vec![f32::NAN.to_bits(), 1f32.to_bits()];
    let mut grads = GradMap::new();
    extract_grads(&mut grads, &vars, &upstream, 1);
    assert!(grads.get(3).is_none());
    assert_eq!(grads.len(), 0);
}

#[test]
fn finite_classification_matches_ieee() {
    assert!(fp::is_finite(1.5f32.to_bits()));
    assert!(fp::is_finite(0f32.to_bits()));
    assert!(!fp::is_finite(f32::NAN.to_bits()));
    assert!(!fp::is_finite(f32::INFINITY.to_bits()));
    assert!(!fp::is_finite(f32::NEG_INFINITY.to_bits()));
    assert!(fp::is_strictly_positive(2f32.to_bits()));
    assert!(!fp::is_strictly_positive(0f32.to_bits()));
    assert!(!fp::is_strictly_positive((-0f32).to_bits()));
    assert!(!fp::is_strictly_positive((-2f32).to_bits()));
    assert!(!fp::is_strictly_positive(f32::NAN.to_bits()));
}
