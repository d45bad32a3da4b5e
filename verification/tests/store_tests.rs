use embprop::feature_store::FeatureStore;

#[test]
fn fill_missing_nodes_gives_every_node_a_feature() {
    let mut store = FeatureStore::new(5, 0);
    store.set_features(1, vec!["a".to_string(), "b".to_string()]);
    store.set_features(3, vec!["a".to_string()]);

    store.fill_missing_nodes();

    // every node now has at least one feature id
    for node in 0..5 {
        assert!(!store.get_features(node).is_empty());
    }
    // nodes that had features are untouched
    assert_eq!(store.get_features(1), &vec![0usize, 1usize]);
    assert_eq!(store.get_features(3), &vec![0usize]);
    // the three empty nodes got fresh, distinct ids past the vocabulary
    assert_eq!(store.get_features(0), &vec![2usize]);
    assert_eq!(store.get_features(2), &vec![3usize]);
    assert_eq!(store.get_features(4), &vec![4usize]);
    // len = vocabulary size + synthesized singleton count
    assert_eq!(store.len(), 2 + 3);
}

#[test]
fn set_features_interns_names_idempotently() {
    let mut store = FeatureStore::new(2, 0);
    store.set_features(0, vec!["red".to_string(), "blue".to_string()]);
    store.set_features(1, vec!["blue".to_string(), "red".to_string()]);

    let a = store.get_features(0).clone();
    let b = store.get_features(1).clone();
    assert_eq!(a, vec![0, 1]);
    // the same names map to the same ids, in the order given
    assert_eq!(b, vec![1, 0]);
    assert_eq!(store.len(), 2);
}
