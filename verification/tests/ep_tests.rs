use embprop::ep::EmbeddingPropagation;
use embprop::feature_store::FeatureStore;
use embprop::graph::Graph;

fn complete_graph(n: usize) -> Graph {
    let mut adjacency = Vec::with_capacity(n);
    for ni in 0..n {
        let mut out = Vec::with_capacity(n - 1);
        for no in 0..n {
            if no != ni {
                out.push(no);
            }
        }
        adjacency.push(out);
    }
    Graph::from_adjacency(adjacency).expect("complete graph is well-formed")
}

#[test]
fn graph_rejects_dangling_neighbors() {
    assert!(Graph::from_adjacency(vec![vec![1], vec![2]]).is_none());
    let g = Graph::from_adjacency(vec![vec![1], vec![0]]).expect("valid");
    assert_eq!(g.len(), 2);
    assert_eq!(g.get_edges(0), &vec![1]);
}

#[test]
fn test_simple_learn_dist() {
    let ccsr = complete_graph(100);

    let mut feature_store = FeatureStore::new(ccsr.len(), 0);
    feature_store.fill_missing_nodes();

    let ep = EmbeddingPropagation {
        alpha: 1e-2f32.to_bits(),
        gamma: 1f32.to_bits(),
        batch_size: 32,
        dims: 5,
        passes: 50,
        seed: 202220222,
    };

    let (embeddings, _losses, _) = ep.learn_feature_embeddings(&ccsr, &feature_store);
    for idx in 0..embeddings.len() {
        let e: Vec<f32> = embeddings
            .get_embedding(idx)
            .iter()
            .map(|b| f32::from_bits(*b))
            .collect();
        println!("{:?} -> {:?}", idx, e);
    }
}

#[test]
fn training_reduces_loss_and_is_reproducible() {
    let graph = complete_graph(100);
    let mut feature_store = FeatureStore::new(graph.len(), 0);
    // no manual features: every node receives a unique synthetic feature
    feature_store.fill_missing_nodes();

    let ep = EmbeddingPropagation {
        alpha: 1e-2f32.to_bits(),
        gamma: 1f32.to_bits(),
        batch_size: 32,
        dims: 5,
        passes: 50,
        seed: 202220222,
    };

    let (_, losses_a, _) = ep.learn_feature_embeddings(&graph, &feature_store);
    let (_, losses_b, _) = ep.learn_feature_embeddings(&graph, &feature_store);

    assert_eq!(losses_a.len(), 50);
    // identical across two runs with the same seed
    assert_eq!(losses_a, losses_b);
    // mean per-pass loss at the final pass is strictly lower than at the first
    let first = f32::from_bits(losses_a[0]);
    let last = f32::from_bits(losses_a[49]);
    assert!(
        last < first,
        "loss failed to decrease: pass 0 = {first}, pass 49 = {last}"
    );
}
