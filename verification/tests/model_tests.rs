use embprop::attention::{attention_mean, AttentionFeatureModel, AttentionPool};
use embprop::embedding::{Distance, EmbeddingStore};
use embprop::feature_store::FeatureStore;
use embprop::graph::Graph;
use embprop::model::{construct_from_multiple_nodes, construct_node_embedding, FeatureMap};
use rand::SeedableRng;

fn bits(v: &[f32]) -> Vec<u32> {
    v.iter().map(|x| x.to_bits()).collect()
}

fn floats(v: &[u32]) -> Vec<f32> {
    v.iter().map(|x| f32::from_bits(*x)).collect()
}

fn store_and_table() -> (FeatureStore, EmbeddingStore) {
    let mut store = FeatureStore::new(3, 0);
    store.set_features(0, vec!["a".to_string()]);
    store.set_features(1, vec!["b".to_string(), "c".to_string()]);
    store.set_features(2, vec!["a".to_string(), "b".to_string()]);
    let mut table = EmbeddingStore::new(3, 2, Distance::Cosine);
    table.set_embedding(0, bits(&[2.0, 4.0]));
    table.set_embedding(1, bits(&[1.0, 3.0]));
    table.set_embedding(2, bits(&[5.0, 7.0]));
    (store, table)
}

#[test]
fn averaged_pooling_of_single_feature_is_identity() {
    let (store, table) = store_and_table();
    let mut rng = rand_xorshift::XorShiftRng::seed_from_u64(7);
    let (map, pooled) = construct_node_embedding(0, &store, &table, None, &mut rng);
    assert_eq!(map.entries, vec![(0usize, 1u64)]);
    assert_eq!(floats(&pooled), vec![2.0, 4.0]);
}

#[test]
fn averaged_pooling_is_invariant_to_node_order() {
    let (store, table) = store_and_table();
    let mut rng = rand_xorshift::XorShiftRng::seed_from_u64(7);
    let (m_ab, ab) = construct_from_multiple_nodes(&vec![0, 1], &store, &table, None, &mut rng);
    let (m_ba, ba) = construct_from_multiple_nodes(&vec![1, 0], &store, &table, None, &mut rng);
    // entries stand in first-occurrence order of the gathered sequence
    assert_eq!(m_ab.entries, vec![(0, 1), (1, 1), (2, 1)]);
    assert_eq!(m_ba.entries, vec![(1, 1), (2, 1), (0, 1)]);
    // exact values: ((2,4) + (1,3) + (5,7)) / 3 in either gathering order
    assert_eq!(floats(&ab), floats(&ba));
    let expect = vec![(2.0f32 + 1.0 + 5.0) / 3.0, (4.0f32 + 3.0 + 7.0) / 3.0];
    assert_eq!(floats(&ab), expect);
}

#[test]
fn averaged_pooling_weights_by_multiplicity() {
    let (store, table) = store_and_table();
    let mut rng = rand_xorshift::XorShiftRng::seed_from_u64(7);
    // nodes 0 and 2 both carry feature "a" (id 0): multiplicity 2
    let (map, pooled) = construct_from_multiple_nodes(&vec![0, 2], &store, &table, None, &mut rng);
    let mut counts: Vec<(usize, u64)> = map.entries.clone();
    counts.sort();
    assert_eq!(counts, vec![(0, 2), (1, 1)]);
    let expect = vec![(2.0f32 * 2.0 + 1.0) / 3.0, (4.0f32 * 2.0 + 3.0) / 3.0];
    assert_eq!(floats(&pooled), expect);
}

#[test]
fn attention_over_single_feature_is_identity() {
    let (_, table) = store_and_table();
    let mut map = FeatureMap::new();
    map.add_feature(2);
    match attention_mean(&map, &table) {
        AttentionPool::Single(v) => assert_eq!(floats(&v), vec![5.0, 7.0]),
        AttentionPool::Scores(_) => panic!("one distinct feature must pool verbatim"),
    }
}

#[test]
fn attention_over_two_features_yields_scores() {
    let (_, table) = store_and_table();
    let mut map = FeatureMap::new();
    map.add_feature(0);
    map.add_feature(1);
    match attention_mean(&map, &table) {
        AttentionPool::Single(_) => panic!("two features need a softmax"),
        AttentionPool::Scores(s) => {
            assert_eq!(s.len(), 2);
            // dot((2,4),(1,3)) = 14, multiplicities 1·1, scaled by 1/sqrt(2)
            let expect = 14.0f32 / 2.0f32.sqrt();
            let got = floats(&s);
            assert_eq!(got, vec![expect, expect]);
        },
    }
}

#[test]
fn attention_model_reconstructs_with_attention() {
    let (store, table) = store_and_table();
    // node 1 has node 0 as its only neighbor; node 0 carries one feature
    let graph = Graph::from_adjacency(vec![vec![1], vec![0], vec![]]).expect("valid");
    let model = AttentionFeatureModel::new(None, None);
    let mut rng = rand_xorshift::XorShiftRng::seed_from_u64(5);
    let (map, pooled) = model.reconstruct_node_embedding(&graph, 1, &store, &table, &mut rng);
    assert_eq!(map.entries, vec![(0usize, 1u64)]);
    match pooled {
        // one distinct gathered feature: its embedding, verbatim
        AttentionPool::Single(v) => assert_eq!(floats(&v), vec![2.0, 4.0]),
        AttentionPool::Scores(_) => panic!("one distinct feature must pool verbatim"),
    }
    // node 0's only neighbor is node 1, which carries two features
    let (map, pooled) = model.reconstruct_node_embedding(&graph, 0, &store, &table, &mut rng);
    assert_eq!(map.entries.len(), 2);
    match pooled {
        AttentionPool::Single(_) => panic!("two features need a softmax"),
        AttentionPool::Scores(s) => assert_eq!(s.len(), 2),
    }
}

#[test]
fn down_sampling_caps_the_gathered_features() {
    let mut store = FeatureStore::new(1, 0);
    store.set_features(
        0,
        vec!["a".to_string(), "b".to_string(), "c".to_string(), "d".to_string()],
    );
    let table = EmbeddingStore::new(4, 2, Distance::Cosine);
    let mut rng = rand_xorshift::XorShiftRng::seed_from_u64(3);
    let (map, _) = construct_node_embedding(0, &store, &table, Some(2), &mut rng);
    let total: u64 = map.entries.iter().map(|e| e.1).sum();
    assert_eq!(total, 2);
}
