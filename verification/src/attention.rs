//! Attention pooling over a feature multiset.
//!
//! For every unordered pair of distinct features, the dot product of their
//! embeddings is scaled by the product of their multiplicities; each
//! feature's pairwise scores are summed and divided by the square root of
//! the embedding dimensionality.  The scores are then passed through a
//! numerically stabilized softmax and the embeddings combined by the
//! resulting weights.  With exactly one distinct feature the pooling returns
//! that feature's embedding verbatim, with weight one.
//!
//! The exponential of the softmax is the one step this crate does not
//! compute itself: `attention_mean` hands the pre-softmax scores out, and
//! `softmax_normalize` and `attention_combine` finish the pooling once the
//! caller has exponentiated them.

use vstd::prelude::*;

use crate::embedding::EmbeddingStore;
use crate::fp::{div_bits, f_add, f_div, f_from_int, f_mul, f_sqrt, int_bits, mul_bits, sqrt_bits};
use crate::feature_store::FeatureStore;
use crate::graph::Graph;
use crate::model::{
    collect_embeddings_from_node, entries_after_adds, gather_from_nodes, gathered_count,
    gathered_entries, lemma_gathered_member_pos, lemma_gathered_pos_witness, FeatureMap,
};
use crate::rng::rng_choose;
use crate::vecmath::{add_vecs, scale_vec, vec_add, vec_scale, vec_sum, vec_zero, vsum, zero_vec};

verus! {

/// The dot product of two equal-length vectors: left-to-right sum of the
/// coordinate products, seeded with positive zero.
pub open spec fn dot_bits(a: Seq<u32>, b: Seq<u32>) -> u32 {
    vsum(Seq::new(a.len(), |i: int| mul_bits(a[i], b[i])))
}

/// Multiplicity product of two entries, saturating at `u64::MAX`.
pub open spec fn count_product(a: u64, b: u64) -> u64 {
    if a * b <= u64::MAX {
        (a * b) as u64
    } else {
        u64::MAX
    }
}

/// The pairwise score of entries `i` and `j`: their embeddings' dot product
/// scaled by the product of their multiplicities.
pub open spec fn pair_score(map: FeatureMap, table: EmbeddingStore, i: int, j: int) -> u32 {
    mul_bits(
        dot_bits(table.row_at(map.entries@[i].0 as int), table.row_at(map.entries@[j].0 as int)),
        int_bits(count_product(map.entries@[i].1, map.entries@[j].1)),
    )
}

/// The scores of entry `m` against every entry of index below `j`, itself
/// excluded, summed left to right from positive zero.
pub open spec fn score_prefix(map: FeatureMap, table: EmbeddingStore, m: int, j: int) -> u32
    decreases j,
{
    if j <= 0 {
        crate::fp::zero_bits()
    } else if j - 1 == m {
        score_prefix(map, table, m, j - 1)
    } else {
        crate::fp::add_bits(
            score_prefix(map, table, m, j - 1),
            pair_score(map, table, m, j - 1),
        )
    }
}

/// The pre-softmax score of entry `m`: its pairwise scores against all other
/// entries, in index order, divided by the square root of the embedding
/// dimensionality.
pub open spec fn attention_score(map: FeatureMap, table: EmbeddingStore, m: int) -> u32 {
    div_bits(
        score_prefix(map, table, m, map.entries@.len() as int),
        sqrt_bits(int_bits(table.dims as u64)),
    )
}

/// The dot product of two rows.
fn dot(a: &Vec<u32>, b: &Vec<u32>) -> (r: u32)
    requires
        a@.len() == b@.len(),
    ensures
        r == dot_bits(a@, b@),
{
    let mut acc: u32 = 0;
    let mut i: usize = 0;
    proof {
        assert(Seq::new(a@.len(), |i: int| mul_bits(a@[i], b@[i])).take(0) =~= Seq::<
            u32,
        >::empty());
    }
    while i < a.len()
        invariant
            a@.len() == b@.len(),
            i <= a@.len(),
            acc == vsum(Seq::new(a@.len(), |k: int| mul_bits(a@[k], b@[k])).take(i as int)),
        decreases a@.len() - i,
    {
        acc = f_add(acc, f_mul(a[i], b[i]));
        proof {
            let prods = Seq::new(a@.len(), |k: int| mul_bits(a@[k], b@[k]));
            assert(prods.take(i + 1).drop_last() =~= prods.take(i as int));
            assert(prods.take(i + 1).last() == prods[i as int]);
        }
        i += 1;
    }
    proof {
        let prods = Seq::new(a@.len(), |k: int| mul_bits(a@[k], b@[k]));
        assert(prods.take(a@.len() as int) =~= prods);
    }
    acc
}

/// The pre-softmax attention score of every entry of the map.
pub fn attention_scores(map: &FeatureMap, table: &EmbeddingStore) -> (r: Vec<u32>)
    requires
        map.wf(),
        table.wf(),
        map.keys_below(table.spec_len() as int),
    ensures
        r@.len() == map.entries@.len(),
        forall|m: int| 0 <= m < r@.len() ==> r@[m] == attention_score(*map, *table, m),
{
    let n = map.entries.len();
    let d_k = f_sqrt(f_from_int(table.dims as u64));
    let mut r: Vec<u32> = Vec::new();
    let mut m: usize = 0;
    while m < n
        invariant
            map.wf(),
            table.wf(),
            map.keys_below(table.spec_len() as int),
            n == map.entries@.len(),
            d_k == sqrt_bits(int_bits(table.dims as u64)),
            m <= n,
            r@.len() == m,
            forall|p: int| 0 <= p < m ==> r@[p] == attention_score(*map, *table, p),
        decreases n - m,
    {
        let mut acc: u32 = 0;
        let mut j: usize = 0;
        while j < n
            invariant
                map.wf(),
                table.wf(),
                map.keys_below(table.spec_len() as int),
                n == map.entries@.len(),
                m < n,
                j <= n,
                acc == score_prefix(*map, *table, m as int, j as int),
            decreases n - j,
        {
            if j != m {
                let (fi, ci) = map.entries[m];
                let (fj, cj) = map.entries[j];
                let dp = dot(table.get_embedding(fi), table.get_embedding(fj));
                let cc: u64 = match ci.checked_mul(cj) {
                    Some(v) => v,
                    None => u64::MAX,
                };
                acc = f_add(acc, f_mul(dp, f_from_int(cc)));
            }
            j += 1;
        }
        r.push(f_div(acc, d_k));
        m += 1;
    }
    r
}

/// Normalize exponentiated scores into softmax weights: each divided by the
/// left-to-right sum of all of them.
pub fn softmax_normalize(weights: &Vec<u32>) -> (r: Vec<u32>)
    ensures
        r@.len() == weights@.len(),
        forall|i: int| 0 <= i < r@.len() ==> r@[i] == div_bits(weights@[i], vsum(weights@)),
{
    let denom = vec_sum(weights);
    let mut r: Vec<u32> = Vec::new();
    let mut i: usize = 0;
    while i < weights.len()
        invariant
            i <= weights@.len(),
            r@.len() == i,
            denom == vsum(weights@),
            forall|j: int| 0 <= j < i ==> r@[j] == div_bits(weights@[j], vsum(weights@)),
        decreases weights@.len() - i,
    {
        r.push(f_div(weights[i], denom));
        i += 1;
    }
    r
}

/// The attention-weighted combination of the mapped embeddings, summed left
/// to right: `Σ_i weight_i · e_i`.
pub open spec fn combine_prefix(
    map: FeatureMap,
    table: EmbeddingStore,
    attention: Seq<u32>,
    j: int,
    d: nat,
) -> Seq<u32>
    decreases j,
{
    if j <= 0 {
        zero_vec(d)
    } else {
        add_vecs(
            combine_prefix(map, table, attention, j - 1, d),
            scale_vec(attention[j - 1], table.row_at(map.entries@[j - 1].0 as int)),
        )
    }
}

/// Combine the mapped embeddings by the given attention weights.
pub fn attention_combine(map: &FeatureMap, table: &EmbeddingStore, attention: &Vec<u32>) -> (r:
    Vec<u32>)
    requires
        map.wf(),
        table.wf(),
        map.keys_below(table.spec_len() as int),
        attention@.len() == map.entries@.len(),
    ensures
        r@ == combine_prefix(
            *map,
            *table,
            attention@,
            map.entries@.len() as int,
            table.dims as nat,
        ),
        r@.len() == table.dims,
{
    let n = map.entries.len();
    let d = table.dims;
    let mut acc = vec_zero(d);
    let mut j: usize = 0;
    while j < n
        invariant
            map.wf(),
            table.wf(),
            map.keys_below(table.spec_len() as int),
            attention@.len() == n,
            n == map.entries@.len(),
            d == table.dims,
            j <= n,
            acc@.len() == d,
            acc@ == combine_prefix(*map, *table, attention@, j as int, d as nat),
        decreases n - j,
    {
        let (f, _c) = map.entries[j];
        let scaled = vec_scale(attention[j], table.get_embedding(f));
        acc = vec_add(&acc, &scaled);
        j += 1;
    }
    acc
}

/// What attention pooling needs from the caller: nothing for a single
/// distinct feature (whose embedding comes back verbatim, with weight one),
/// or the pre-softmax scores to be exponentiated for several.
pub enum AttentionPool {
    /// Exactly one distinct feature: its embedding, unchanged.
    Single(Vec<u32>),
    /// The pre-softmax score of every entry, in entry order.
    Scores(Vec<u32>),
}

/// Attention pooling, up to the softmax exponential.
///
/// Over exactly one distinct feature the pooled vector is that feature's
/// embedding with weight one, returned directly.  Over several, the
/// pre-softmax scores come back; exponentiate them, then finish with
/// `softmax_normalize` and `attention_combine`.
pub fn attention_mean(map: &FeatureMap, table: &EmbeddingStore) -> (r: AttentionPool)
    requires
        map.wf(),
        table.wf(),
        map.keys_below(table.spec_len() as int),
    ensures
        map.entries@.len() == 1 ==> match r {
            // the one feature's embedding, verbatim
            AttentionPool::Single(v) => v@ == table.row_at(map.entries@[0].0 as int),
            AttentionPool::Scores(_) => false,
        },
        map.entries@.len() != 1 ==> match r {
            AttentionPool::Single(_) => false,
            AttentionPool::Scores(s) => s@.len() == map.entries@.len() && forall|m: int|
                0 <= m < s@.len() ==> s@[m] == attention_score(*map, *table, m),
        },
{
    if map.entries.len() == 1 {
        let (f, _c) = map.entries[0];
        let row = table.get_embedding(f);
        let copy = crate::vecmath::clone_row(row);
        AttentionPool::Single(copy)
    } else {
        AttentionPool::Scores(attention_scores(map, table))
    }
}

/// Direct embedding under attention pooling: gather the node's features
/// (down-sampled to at most `max_features`), then pool them by attention, up
/// to the softmax exponential.
pub fn attention_construct_node_embedding(
    node: usize,
    feature_store: &FeatureStore,
    feature_embeddings: &EmbeddingStore,
    max_features: Option<usize>,
    rng: &mut rand_xorshift::XorShiftRng,
) -> (out: (FeatureMap, AttentionPool))
    requires
        feature_store.wf(),
        feature_store.spec_len() <= feature_embeddings.spec_len(),
        node < feature_store.num_nodes(),
        feature_embeddings.wf(),
    ensures
        out.0.wf(),
        out.0.keys_below(feature_store.spec_len()),
        // without a binding cap the map is exactly the node's feature
        // multiset; under one, exactly the cap's worth of occurrences enter
        (max_features is None || feature_store.features@[node as int]@.len()
            <= max_features.unwrap()) ==> forall|g: usize|
            #![trigger out.0.count_of(g)]
            out.0.count_of(g) == feature_store.features@[node as int]@.to_multiset().count(g),
        (max_features is None || feature_store.features@[node as int]@.len()
            <= max_features.unwrap()) ==> out.0.entries@ == entries_after_adds(
            Seq::<(usize, u64)>::empty(),
            feature_store.features@[node as int]@,
        ),
        (max_features is Some && max_features.unwrap() < feature_store.features@[
            node as int
        ]@.len()) ==> out.0.map_total() == max_features.unwrap(),
        out.0.entries@.len() == 1 ==> match out.1 {
            AttentionPool::Single(v) => v@ == feature_embeddings.row_at(
                out.0.entries@[0].0 as int,
            ),
            AttentionPool::Scores(_) => false,
        },
        out.0.entries@.len() != 1 ==> match out.1 {
            AttentionPool::Single(_) => false,
            AttentionPool::Scores(s) => s@.len() == out.0.entries@.len() && forall|m: int|
                0 <= m < s@.len() ==> s@[m] == attention_score(out.0, *feature_embeddings, m),
        },
{
    let mut feat_map = FeatureMap::new();
    let ghost pre = feat_map;
    let n_feats = feature_store.get_features(node).len();
    collect_embeddings_from_node(node, feature_store, &mut feat_map, max_features, rng);
    proof {
        broadcast use vstd::seq_lib::group_to_multiset_ensures;
        broadcast use vstd::multiset::axiom_count_le_len;

        let feats = feature_store.features@[node as int]@;
        assert(feats.len() == n_feats);
        assert(pre.entries@ =~= Seq::<(usize, u64)>::empty());
        if max_features is None || feats.len() <= max_features.unwrap() {
            assert forall|g: usize|
                #![trigger feat_map.count_of(g)]
                feat_map.count_of(g) == feats.to_multiset().count(g) by {
                assert(pre.count_of(g) == 0);
                assert(feats.to_multiset().count(g) <= feats.to_multiset().len());
                assert(feats.to_multiset().len() == feats.len());
                assert(pre.count_of(g) + feats.to_multiset().count(g) <= u64::MAX);
            }
            assert(feat_map.entries@ == entries_after_adds(pre.entries@, feats));
        }
    }
    let pooled = attention_mean(&feat_map, feature_embeddings);
    (feat_map, pooled)
}

/// Reconstruction under attention pooling: gather the outgoing neighbors'
/// features (down-sampled to at most `max_nodes` neighbors) into one
/// multiset, then pool it by attention, up to the softmax exponential.
pub fn attention_reconstruct_node_embedding(
    graph: &Graph,
    node: usize,
    feature_store: &FeatureStore,
    feature_embeddings: &EmbeddingStore,
    max_nodes: Option<usize>,
    max_features: Option<usize>,
    rng: &mut rand_xorshift::XorShiftRng,
) -> (out: (FeatureMap, AttentionPool))
    requires
        graph.wf(),
        feature_store.wf(),
        feature_store.spec_len() <= feature_embeddings.spec_len(),
        node < graph.spec_len(),
        graph.spec_len() <= feature_store.num_nodes(),
        feature_embeddings.wf(),
    ensures
        out.0.wf(),
        out.0.keys_below(feature_store.spec_len()),
        // with every neighbor in play and no feature cap, the map is exactly
        // the neighbors' union feature multiset
        (max_features is None && (max_nodes is None || graph.adjacency@[node as int]@.len()
            <= max_nodes.unwrap())) ==> forall|g: usize|
            #![trigger out.0.count_of(g)]
            gathered_count(*feature_store, graph.adjacency@[node as int]@, g) <= u64::MAX
                ==> out.0.count_of(g) == gathered_count(
                *feature_store,
                graph.adjacency@[node as int]@,
                g,
            ),
        (max_features is None && (max_nodes is None || graph.adjacency@[node as int]@.len()
            <= max_nodes.unwrap())) ==> out.0.entries@ == gathered_entries(
            *feature_store,
            graph.adjacency@[node as int]@,
        ),
        // in every case, a gathered feature occurs among the node's
        // out-neighbors' features
        forall|g: usize|
            out.0.count_of(g) > 0 ==> gathered_count(
                *feature_store,
                graph.adjacency@[node as int]@,
                g,
            ) > 0,
        out.0.entries@.len() == 1 ==> match out.1 {
            AttentionPool::Single(v) => v@ == feature_embeddings.row_at(
                out.0.entries@[0].0 as int,
            ),
            AttentionPool::Scores(_) => false,
        },
        out.0.entries@.len() != 1 ==> match out.1 {
            AttentionPool::Single(_) => false,
            AttentionPool::Scores(s) => s@.len() == out.0.entries@.len() && forall|m: int|
                0 <= m < s@.len() ==> s@[m] == attention_score(out.0, *feature_embeddings, m),
        },
{
    let edges = graph.get_edges(node);
    let use_all = match max_nodes {
        Some(cap) => edges.len() <= cap,
        None => true,
    };
    let feat_map = if use_all {
        gather_from_nodes(edges, feature_store, max_features, rng)
    } else {
        let cap = match max_nodes {
            Some(c) => c,
            None => 0,
        };
        let picked = rng_choose(rng, edges, cap);
        proof {
            broadcast use vstd::seq_lib::group_to_multiset_ensures;

            assert forall|k: int| 0 <= k < picked@.len() implies (
            #[trigger] picked@[k]) < feature_store.num_nodes() by {
                assert(picked@.to_multiset().count(picked@[k]) > 0);
                assert(edges@.to_multiset().count(picked@[k]) > 0);
                assert(edges@.contains(picked@[k]));
                let i = choose|i: int| 0 <= i < edges@.len() && #[trigger] edges@[i] == picked@[k];
                assert(graph.adjacency@[node as int]@[i] < graph.spec_len());
            }
        }
        let gathered = gather_from_nodes(&picked, feature_store, max_features, rng);
        proof {
            broadcast use vstd::seq_lib::group_to_multiset_ensures;

            assert forall|g: usize|
                gathered.count_of(g) > 0 implies gathered_count(
                *feature_store,
                graph.adjacency@[node as int]@,
                g,
            ) > 0 by {
                assert(gathered_count(*feature_store, picked@, g) > 0);
                lemma_gathered_pos_witness(*feature_store, picked@, g);
                let j = choose|j: int|
                    0 <= j < picked@.len() && feature_store.features@[
                        (#[trigger] picked@[j]) as int
                    ]@.to_multiset().count(g) > 0;
                assert(picked@.to_multiset().count(picked@[j]) > 0);
                assert(edges@.to_multiset().count(picked@[j]) > 0);
                assert(edges@.contains(picked@[j]));
                let i = choose|i: int| 0 <= i < edges@.len() && #[trigger] edges@[i] == picked@[j];
                lemma_gathered_member_pos(*feature_store, edges@, g, i);
            }
        }
        gathered
    };
    let pooled = attention_mean(&feat_map, feature_embeddings);
    (feat_map, pooled)
}

/// The attention pooling strategy, with optional feature and neighbor caps.
/// Both the direct construction and the reconstruction pool with attention.
pub struct AttentionFeatureModel {
    /// At most this many features per node enter a pool.
    pub max_features: Option<usize>,
    /// At most this many neighbors enter a reconstruction.
    pub max_neighbor_nodes: Option<usize>,
}

impl AttentionFeatureModel {
    /// A model with the given caps.
    pub fn new(max_features: Option<usize>, max_neighbor_nodes: Option<usize>) -> (r:
        AttentionFeatureModel)
        ensures
            r.max_features == max_features,
            r.max_neighbor_nodes == max_neighbor_nodes,
    {
        AttentionFeatureModel { max_features, max_neighbor_nodes }
    }

    /// Direct embedding of the node under attention pooling.
    pub fn construct_node_embedding(
        &self,
        node: usize,
        feature_store: &FeatureStore,
        feature_embeddings: &EmbeddingStore,
        rng: &mut rand_xorshift::XorShiftRng,
    ) -> (out: (FeatureMap, AttentionPool))
        requires
            feature_store.wf(),
            feature_store.spec_len() <= feature_embeddings.spec_len(),
            node < feature_store.num_nodes(),
            feature_embeddings.wf(),
        ensures
            out.0.wf(),
            out.0.keys_below(feature_store.spec_len()),
            (self.max_features is None || feature_store.features@[node as int]@.len()
                <= self.max_features.unwrap()) ==> forall|g: usize|
                #![trigger out.0.count_of(g)]
                out.0.count_of(g) == feature_store.features@[node as int]@.to_multiset().count(
                    g,
                ),
            (self.max_features is None || feature_store.features@[node as int]@.len()
                <= self.max_features.unwrap()) ==> out.0.entries@ == entries_after_adds(
                Seq::<(usize, u64)>::empty(),
                feature_store.features@[node as int]@,
            ),
            out.0.entries@.len() == 1 ==> match out.1 {
                AttentionPool::Single(v) => v@ == feature_embeddings.row_at(
                    out.0.entries@[0].0 as int,
                ),
                AttentionPool::Scores(_) => false,
            },
            out.0.entries@.len() != 1 ==> match out.1 {
                AttentionPool::Single(_) => false,
                AttentionPool::Scores(s) => s@.len() == out.0.entries@.len() && forall|m: int|
                    0 <= m < s@.len() ==> s@[m] == attention_score(
                        out.0,
                        *feature_embeddings,
                        m,
                    ),
            },
    {
        attention_construct_node_embedding(
            node,
            feature_store,
            feature_embeddings,
            self.max_features,
            rng,
        )
    }

    /// Reconstructed embedding of the node from its neighbors, pooled with
    /// the same attention strategy as the direct construction.
    pub fn reconstruct_node_embedding(
        &self,
        graph: &Graph,
        node: usize,
        feature_store: &FeatureStore,
        feature_embeddings: &EmbeddingStore,
        rng: &mut rand_xorshift::XorShiftRng,
    ) -> (out: (FeatureMap, AttentionPool))
        requires
            graph.wf(),
            feature_store.wf(),
            feature_store.spec_len() <= feature_embeddings.spec_len(),
            node < graph.spec_len(),
            graph.spec_len() <= feature_store.num_nodes(),
            feature_embeddings.wf(),
        ensures
            out.0.wf(),
            out.0.keys_below(feature_store.spec_len()),
            (self.max_features is None && (self.max_neighbor_nodes is None || graph.adjacency@[
                node as int
            ]@.len() <= self.max_neighbor_nodes.unwrap())) ==> forall|g: usize|
                #![trigger out.0.count_of(g)]
                gathered_count(*feature_store, graph.adjacency@[node as int]@, g) <= u64::MAX
                    ==> out.0.count_of(g) == gathered_count(
                    *feature_store,
                    graph.adjacency@[node as int]@,
                    g,
                ),
            (self.max_features is None && (self.max_neighbor_nodes is None || graph.adjacency@[
                node as int
            ]@.len() <= self.max_neighbor_nodes.unwrap())) ==> out.0.entries@
                == gathered_entries(*feature_store, graph.adjacency@[node as int]@),
            forall|g: usize|
                out.0.count_of(g) > 0 ==> gathered_count(
                    *feature_store,
                    graph.adjacency@[node as int]@,
                    g,
                ) > 0,
            out.0.entries@.len() == 1 ==> match out.1 {
                AttentionPool::Single(v) => v@ == feature_embeddings.row_at(
                    out.0.entries@[0].0 as int,
                ),
                AttentionPool::Scores(_) => false,
            },
            out.0.entries@.len() != 1 ==> match out.1 {
                AttentionPool::Single(_) => false,
                AttentionPool::Scores(s) => s@.len() == out.0.entries@.len() && forall|m: int|
                    0 <= m < s@.len() ==> s@[m] == attention_score(
                        out.0,
                        *feature_embeddings,
                        m,
                    ),
            },
    {
        attention_reconstruct_node_embedding(
            graph,
            node,
            feature_store,
            feature_embeddings,
            self.max_neighbor_nodes,
            self.max_features,
            rng,
        )
    }

    /// Pool the features of an arbitrary node sequence with attention.
    pub fn construct_from_multiple_nodes(
        &self,
        nodes: &Vec<usize>,
        feature_store: &FeatureStore,
        feature_embeddings: &EmbeddingStore,
        rng: &mut rand_xorshift::XorShiftRng,
    ) -> (out: (FeatureMap, AttentionPool))
        requires
            feature_store.wf(),
            feature_store.spec_len() <= feature_embeddings.spec_len(),
            forall|k: int|
                0 <= k < nodes@.len() ==> (#[trigger] nodes@[k]) < feature_store.num_nodes(),
            feature_embeddings.wf(),
        ensures
            out.0.wf(),
            out.0.keys_below(feature_store.spec_len()),
            self.max_features is None ==> forall|g: usize|
                #![trigger out.0.count_of(g)]
                gathered_count(*feature_store, nodes@, g) <= u64::MAX ==> out.0.count_of(g)
                    == gathered_count(*feature_store, nodes@, g),
            self.max_features is None ==> out.0.entries@ == gathered_entries(
                *feature_store,
                nodes@,
            ),
            forall|g: usize|
                out.0.count_of(g) > 0 ==> gathered_count(*feature_store, nodes@, g) > 0,
            out.0.entries@.len() == 1 ==> match out.1 {
                AttentionPool::Single(v) => v@ == feature_embeddings.row_at(
                    out.0.entries@[0].0 as int,
                ),
                AttentionPool::Scores(_) => false,
            },
            out.0.entries@.len() != 1 ==> match out.1 {
                AttentionPool::Single(_) => false,
                AttentionPool::Scores(s) => s@.len() == out.0.entries@.len() && forall|m: int|
                    0 <= m < s@.len() ==> s@[m] == attention_score(
                        out.0,
                        *feature_embeddings,
                        m,
                    ),
            },
    {
        let feat_map = gather_from_nodes(nodes, feature_store, self.max_features, rng);
        let pooled = attention_mean(&feat_map, feature_embeddings);
        (feat_map, pooled)
    }
}

} // verus!
