//! The embedding-propagation training loop.
//!
//! One pass shuffles all node ids and walks them in fixed-size batches.  For
//! every node of a batch the loss and its per-feature gradients are computed
//! (direct, reconstructed and negative constructions, margin ranking loss,
//! closed-form gradients of the averaged pooling); the per-node gradient maps
//! are merged into one batch map by elementwise summation; the merged map is
//! applied to the shared feature-embedding table by plain gradient descent;
//! the mean loss of every pass is reported.  A fixed seed reproduces the
//! whole run: the shuffle order and each node's draws are functions of the
//! seed, the batch index and the node id.

use vstd::prelude::*;

use crate::aggregate::merge_grads;
use crate::embedding::{Distance, EmbeddingStore};
use crate::feature_store::FeatureStore;
use crate::fp::{
    add_bits, div_bits, f_add, f_div, f_from_int, f_hinge, f_sub, f_zero, int_bits,
    is_strictly_positive, is_strictly_positive_bits, sub_bits, zero_bits,
};
use crate::graph::Graph;
use crate::loss::{
    euclid_bits, euclidean_distance, extract_grads, feature_grad, margin_loss_bits, GradMap,
};
use crate::model::{
    averaged_pool, construct_node_embedding, gathered_count, reconstruct_node_embedding,
    total_count, FeatureMap,
};
use crate::rng::{is_symmetric_draw, rand_symmetric, rng_below, rng_from_seed, rng_shuffle};
use crate::vecmath::{
    all_finite_seq, div_vec, neg_seq, neg_vec, sub_vecs, vec_div_scalar, vec_sub, vec_zero, vsum,
    zero_vec,
};

verus! {

/// How many outgoing neighbors a reconstruction samples at most.
pub const MAX_NEIGHBOR_NODES: usize = 10;

/// Configuration of one training run.
pub struct EmbeddingPropagation {
    /// Learning rate, as binary32 bits.
    pub alpha: u32,
    /// Margin of the ranking loss, as binary32 bits.
    pub gamma: u32,
    /// Nodes per batch.
    pub batch_size: usize,
    /// Embedding dimensionality.
    pub dims: usize,
    /// Number of passes over all nodes.
    pub passes: usize,
    /// Seed of every random draw of the run.
    pub seed: u64,
}

/// Fill every row of the table with fresh draws from [-1, 1): every
/// coordinate is overwritten with a `2·u − 1` draw.
pub fn randomize_embedding_store(es: &mut EmbeddingStore, rng: &mut rand_xorshift::XorShiftRng)
    requires
        old(es).wf(),
    ensures
        final(es).wf(),
        final(es).dims == old(es).dims,
        final(es).spec_len() == old(es).spec_len(),
        forall|i: int, j: int|
            0 <= i < final(es).spec_len() && 0 <= j < final(es).dims ==> is_symmetric_draw(
                #[trigger] final(es).row_at(i)[j],
            ),
{
    let n = es.len();
    let d = es.dims;
    let mut idx: usize = 0;
    while idx < n
        invariant
            es.wf(),
            es.dims == d,
            es.spec_len() == n,
            forall|i: int, j: int|
                0 <= i < idx && 0 <= j < d ==> is_symmetric_draw(#[trigger] es.row_at(i)[j]),
        decreases n - idx,
    {
        let mut row: Vec<u32> = Vec::new();
        let mut j: usize = 0;
        while j < d
            invariant
                j <= d,
                row@.len() == j,
                forall|p: int| 0 <= p < j ==> is_symmetric_draw(#[trigger] row@[p]),
            decreases d - j,
        {
            row.push(rand_symmetric(rng));
            j += 1;
        }
        es.set_embedding(idx, row);
        idx += 1;
    }
}

impl EmbeddingPropagation {
    /// The preconditions of a run: a non-degenerate configuration (batch
    /// size, pass count, node count, dimensionality all non-zero, and at
    /// least two nodes so a negative sample exists), a well-formed graph and
    /// feature store covering the graph's nodes.
    pub open spec fn can_run(self, graph: Graph, features: FeatureStore) -> bool {
        &&& self.batch_size >= 1
        &&& self.passes >= 1
        &&& self.dims >= 1
        &&& graph.wf()
        &&& graph.spec_len() >= 2
        &&& features.wf()
        &&& graph.spec_len() <= features.num_nodes()
        &&& features.spec_len() <= usize::MAX
    }

    /// Learn the feature embeddings: initialize the table randomly from the
    /// seed, then run the configured number of passes; also report the mean
    /// loss of every pass, as binary32 bits, together with the ghost
    /// sequence of the per-node losses behind each mean.
    pub fn learn_feature_embeddings(&self, graph: &Graph, features: &FeatureStore) -> (out: (
        EmbeddingStore,
        Vec<u32>,
        Ghost<Seq<Seq<u32>>>,
    ))
        requires
            self.can_run(*graph, *features),
        ensures
            out.0.wf(),
            out.0.dims == self.dims,
            out.0.spec_len() == features.spec_len(),
            out.1@.len() == self.passes,
            out.2@.len() == self.passes,
            // every reported pass loss is the mean — the left-to-right sum
            // divided by the node count — of one hinge-shaped loss per node
            forall|p: int|
                #![trigger out.2@[p]]
                0 <= p < self.passes ==> {
                    &&& out.2@[p].len() == graph.spec_len()
                    &&& forall|i: int|
                        0 <= i < out.2@[p].len() ==> (#[trigger] out.2@[p][i]) == zero_bits()
                            || is_strictly_positive_bits(out.2@[p][i])
                    &&& out.1@[p] == div_bits(vsum(out.2@[p]), int_bits(graph.spec_len() as u64))
                },
    {
        let table_len = features.len();
        let mut feature_embeddings = EmbeddingStore::new(table_len, self.dims, Distance::Cosine);
        let mut rng = rng_from_seed(self.seed);
        randomize_embedding_store(&mut feature_embeddings, &mut rng);

        let n_nodes = graph.len();
        let mut node_idxs: Vec<usize> = Vec::new();
        let mut i: usize = 0;
        while i < n_nodes
            invariant
                i <= n_nodes,
                node_idxs@.len() == i,
                forall|j: int| 0 <= j < i ==> node_idxs@[j] < n_nodes,
            decreases n_nodes - i,
        {
            node_idxs.push(i);
            i += 1;
        }

        let mut pass_losses: Vec<u32> = Vec::new();
        let ghost mut all_losses: Seq<Seq<u32>> = Seq::empty();
        let mut pass: usize = 0;
        while pass < self.passes
            invariant
                self.can_run(*graph, *features),
                n_nodes == graph.spec_len(),
                node_idxs@.len() == n_nodes,
                forall|j: int| 0 <= j < n_nodes ==> node_idxs@[j] < n_nodes,
                pass <= self.passes,
                pass_losses@.len() == pass,
                all_losses.len() == pass,
                forall|p: int|
                    #![trigger all_losses[p]]
                    0 <= p < pass ==> {
                        &&& all_losses[p].len() == graph.spec_len()
                        &&& forall|i: int|
                            0 <= i < all_losses[p].len() ==> (#[trigger] all_losses[p][i])
                                == zero_bits() || is_strictly_positive_bits(all_losses[p][i])
                        &&& pass_losses@[p] == div_bits(
                            vsum(all_losses[p]),
                            int_bits(graph.spec_len() as u64),
                        )
                    },
                feature_embeddings.wf(),
                feature_embeddings.dims == self.dims,
                feature_embeddings.spec_len() == features.spec_len(),
            decreases self.passes - pass,
        {
            let ghost mut node_losses: Seq<u32> = Seq::empty();
            rng_shuffle(&mut rng, &mut node_idxs);
            proof {
                broadcast use vstd::seq_lib::group_to_multiset_ensures;

                assert forall|j: int| 0 <= j < node_idxs@.len() implies (
                #[trigger] node_idxs@[j]) < n_nodes by {
                    assert(node_idxs@.to_multiset().count(node_idxs@[j]) > 0);
                    assert(node_idxs@.contains(node_idxs@[j]));
                }
            }
            let mut error: u32 = f_zero();
            let mut start: usize = 0;
            let mut batch_index: usize = 0;
            while start < n_nodes
                invariant
                    self.can_run(*graph, *features),
                    n_nodes == graph.spec_len(),
                    node_idxs@.len() == n_nodes,
                    forall|j: int| 0 <= j < n_nodes ==> node_idxs@[j] < n_nodes,
                    start <= n_nodes,
                    node_losses.len() == start,
                    error == vsum(node_losses),
                    forall|i: int|
                        0 <= i < node_losses.len() ==> #[trigger] node_losses[i] == zero_bits()
                            || is_strictly_positive_bits(node_losses[i]),
                    feature_embeddings.wf(),
                    feature_embeddings.dims == self.dims,
                    feature_embeddings.spec_len() == features.spec_len(),
                decreases n_nodes - start,
            {
                let batch_end = if n_nodes - start < self.batch_size {
                    n_nodes
                } else {
                    start + self.batch_size
                };
                let mut all_grads = GradMap::new();
                let mut b: usize = start;
                while b < batch_end
                    invariant
                        self.can_run(*graph, *features),
                        n_nodes == graph.spec_len(),
                        node_idxs@.len() == n_nodes,
                        forall|j: int| 0 <= j < n_nodes ==> node_idxs@[j] < n_nodes,
                        start <= b <= batch_end <= n_nodes,
                        node_losses.len() == b,
                        error == vsum(node_losses),
                        forall|i: int|
                            0 <= i < node_losses.len() ==> #[trigger] node_losses[i]
                                == zero_bits() || is_strictly_positive_bits(node_losses[i]),
                        feature_embeddings.wf(),
                        feature_embeddings.dims == self.dims,
                        feature_embeddings.spec_len() == features.spec_len(),
                        all_grads.wf(),
                        all_grads.keys_below(features.spec_len()),
                        all_grads.dims_ok(self.dims as int),
                    decreases batch_end - b,
                {
                    let node_id = node_idxs[b];
                    let node_seed = self.seed.wrapping_add((batch_index as u64).wrapping_add(
                        node_id as u64,
                    ));
                    let mut node_rng = rng_from_seed(node_seed);
                    let (loss, node_grads) = self.run_pass(
                        graph,
                        node_id,
                        features,
                        &feature_embeddings,
                        &mut node_rng,
                    );
                    merge_grads(&mut all_grads, &node_grads, self.dims);
                    error = f_add(error, loss);
                    proof {
                        assert(node_losses.push(loss).drop_last() =~= node_losses);
                        assert(node_losses.push(loss).last() == loss);
                        node_losses = node_losses.push(loss);
                    }
                    b += 1;
                }
                crate::optimizer::sgd(&mut feature_embeddings, &all_grads, self.alpha);
                start = batch_end;
                batch_index = batch_index.wrapping_add(1);
            }
            let mean = f_div(error, f_from_int(n_nodes as u64));
            proof {
                assert(n_nodes as u64 == graph.spec_len() as u64);
                assert(mean == div_bits(vsum(node_losses), int_bits(graph.spec_len() as u64)));
            }
            pass_losses.push(mean);
            proof {
                assert(pass_losses@[pass as int] == mean);
                assert(node_losses.len() == graph.spec_len());
                all_losses = all_losses.push(node_losses);
                assert(all_losses[pass as int] == node_losses);
                assert forall|p: int| #![trigger all_losses[p]] 0 <= p < pass + 1 implies {
                    &&& all_losses[p].len() == graph.spec_len()
                    &&& forall|i: int|
                        0 <= i < all_losses[p].len() ==> (#[trigger] all_losses[p][i])
                            == zero_bits() || is_strictly_positive_bits(all_losses[p][i])
                    &&& pass_losses@[p] == div_bits(
                        vsum(all_losses[p]),
                        int_bits(graph.spec_len() as u64),
                    )
                } by {
                    if p < pass {
                        assert(all_losses[p] == all_losses.drop_last()[p]);
                    }
                }
            }
            pass += 1;
        }
        (feature_embeddings, pass_losses, Ghost(all_losses))
    }

    /// The hinge argument of the margin loss over the three pooled vectors:
    /// margin plus direct distance minus negative distance.
    pub open spec fn hinge_arg(thv: Seq<u32>, hv: Seq<u32>, hu: Seq<u32>, gamma: u32) -> u32 {
        sub_bits(add_bits(gamma, euclid_bits(thv, hv)), euclid_bits(thv, hu))
    }

    /// Upstream gradient of the loss for the direct pooled vector: zero when
    /// the hinge is inactive, minus the unit direction from direct to
    /// reconstruction otherwise.
    pub open spec fn upstream_direct(
        thv: Seq<u32>,
        hv: Seq<u32>,
        hu: Seq<u32>,
        gamma: u32,
        d: nat,
    ) -> Seq<u32> {
        if is_strictly_positive_bits(Self::hinge_arg(thv, hv, hu, gamma)) {
            neg_seq(div_vec(sub_vecs(thv, hv), euclid_bits(thv, hv)))
        } else {
            zero_vec(d)
        }
    }

    /// Upstream gradient of the loss for the reconstructed pooled vector.
    pub open spec fn upstream_recon(
        thv: Seq<u32>,
        hv: Seq<u32>,
        hu: Seq<u32>,
        gamma: u32,
        d: nat,
    ) -> Seq<u32> {
        if is_strictly_positive_bits(Self::hinge_arg(thv, hv, hu, gamma)) {
            sub_vecs(
                div_vec(sub_vecs(thv, hv), euclid_bits(thv, hv)),
                div_vec(sub_vecs(thv, hu), euclid_bits(thv, hu)),
            )
        } else {
            zero_vec(d)
        }
    }

    /// Upstream gradient of the loss for the negative pooled vector.
    pub open spec fn upstream_neg(
        thv: Seq<u32>,
        hv: Seq<u32>,
        hu: Seq<u32>,
        gamma: u32,
        d: nat,
    ) -> Seq<u32> {
        if is_strictly_positive_bits(Self::hinge_arg(thv, hv, hu, gamma)) {
            div_vec(sub_vecs(thv, hu), euclid_bits(thv, hu))
        } else {
            zero_vec(d)
        }
    }

    /// The finite share a construction hands one feature: its multiplicity
    /// over the construction's total, times the construction's upstream
    /// gradient — or nothing, when the feature is absent or any coordinate
    /// of the share is non-finite.
    pub open spec fn finite_share(m: FeatureMap, g: usize, up: Seq<u32>) -> Option<Seq<u32>> {
        let share = feature_grad(m.count_of(g) as u64, total_count(m.entries@), up);
        if m.count_of(g) > 0 && all_finite_seq(share) {
            Some(share)
        } else {
            None
        }
    }

    /// The gradient one feature receives from the step, for witness `w`:
    /// the first finite share in construction order — direct wins over
    /// reconstruction, reconstruction over negative — and nothing when no
    /// construction contributes a finite share.
    pub open spec fn step_grad(
        self,
        table: EmbeddingStore,
        w: (usize, FeatureMap, FeatureMap, FeatureMap),
        g: usize,
    ) -> Option<Seq<u32>> {
        let d = table.dims as nat;
        let thv = averaged_pool(w.2, table, d);
        let hv = averaged_pool(w.1, table, d);
        let hu = averaged_pool(w.3, table, d);
        if Self::finite_share(w.1, g, Self::upstream_direct(thv, hv, hu, self.gamma, d)) is Some {
            Self::finite_share(w.1, g, Self::upstream_direct(thv, hv, hu, self.gamma, d))
        } else if Self::finite_share(
            w.2,
            g,
            Self::upstream_recon(thv, hv, hu, self.gamma, d),
        ) is Some {
            Self::finite_share(w.2, g, Self::upstream_recon(thv, hv, hu, self.gamma, d))
        } else {
            Self::finite_share(w.3, g, Self::upstream_neg(thv, hv, hu, self.gamma, d))
        }
    }

    /// What one node's step consists of, for some witness `w = (negative
    /// node, direct map, reconstruction map, negative map)`: the negative is
    /// another node; the direct and negative maps gather only their node's
    /// features; gradients flow only to features of the three constructions;
    /// and the loss is the margin ranking loss of the three averaged
    /// poolings over the current table.
    pub open spec fn run_pass_witnessed(
        self,
        graph: Graph,
        features: FeatureStore,
        table: EmbeddingStore,
        node: usize,
        out: (u32, GradMap),
        w: (usize, FeatureMap, FeatureMap, FeatureMap),
    ) -> bool {
        &&& w.0 < graph.spec_len() && w.0 != node
        &&& w.1.wf() && w.2.wf() && w.3.wf()
        // the direct and negative maps hold exactly their node's feature
        // multisets (both constructions run uncapped)
        &&& forall|g: usize|
            w.1.count_of(g) == features.features@[node as int]@.to_multiset().count(g)
        &&& forall|g: usize|
            w.3.count_of(g) == features.features@[w.0 as int]@.to_multiset().count(g)
        // the reconstruction map gathers only the node's out-neighbors'
        // features
        &&& forall|g: usize|
            w.2.count_of(g) > 0 ==> gathered_count(
                features,
                graph.adjacency@[node as int]@,
                g,
            ) > 0
        // every feature's gradient is its first-winning finite share over
        // the witness maps
        &&& forall|g: usize| out.1.spec_get(g) == self.step_grad(table, w, g)
        &&& out.0 == margin_loss_bits(
            averaged_pool(w.2, table, table.dims as nat),
            averaged_pool(w.1, table, table.dims as nat),
            averaged_pool(w.3, table, table.dims as nat),
            self.gamma,
        )
    }

    /// One node's step: draw a negative sample, build the direct,
    /// reconstructed and negative embeddings, evaluate the margin loss, and
    /// extract the per-feature gradients (first occurrence wins across the
    /// three constructions; non-finite gradients are dropped).
    pub fn run_pass(
        &self,
        graph: &Graph,
        node: usize,
        features: &FeatureStore,
        feature_embeddings: &EmbeddingStore,
        rng: &mut rand_xorshift::XorShiftRng,
    ) -> (out: (u32, GradMap))
        requires
            self.can_run(*graph, *features),
            node < graph.spec_len(),
            feature_embeddings.wf(),
            feature_embeddings.dims == self.dims,
            feature_embeddings.spec_len() == features.spec_len(),
        ensures
            out.1.wf(),
            out.1.keys_below(features.spec_len()),
            out.1.dims_ok(self.dims as int),
            out.1.all_finite(),
            // the loss is a hinge value: positive zero or strictly positive
            out.0 == zero_bits() || is_strictly_positive_bits(out.0),
            exists|w: (usize, FeatureMap, FeatureMap, FeatureMap)|
                self.run_pass_witnessed(*graph, *features, *feature_embeddings, node, out, w),
    {
        let n = graph.len();
        // negative sampling: rejection-resample on a self-draw, with a
        // deterministic fallback after a bounded number of draws
        let mut neg_node = rng_below(rng, n);
        let mut tries: usize = 0;
        while neg_node == node && tries < 64
            invariant
                n == graph.spec_len(),
                n >= 2,
                node < n,
                neg_node < n,
                tries <= 64,
            decreases 64 - tries,
        {
            neg_node = rng_below(rng, n);
            tries += 1;
        }
        if neg_node == node {
            neg_node = if node == 0 {
                1
            } else {
                0
            };
        }

        let (hv_vars, hv) = construct_node_embedding(
            node,
            features,
            feature_embeddings,
            None,
            rng,
        );
        let (thv_vars, thv) = reconstruct_node_embedding(
            graph,
            node,
            features,
            feature_embeddings,
            Some(MAX_NEIGHBOR_NODES),
            None,
            rng,
        );
        let (hu_vars, hu) = construct_node_embedding(
            neg_node,
            features,
            feature_embeddings,
            None,
            rng,
        );

        let d1 = euclidean_distance(&thv, &hv);
        let d2 = euclidean_distance(&thv, &hu);
        let x = f_sub(f_add(self.gamma, d1), d2);
        let loss = f_hinge(x);

        // gradients of the hinge with respect to the three pooled vectors
        let (g_recon, g_direct, g_neg) = if is_strictly_positive(x) {
            let unit_direct = vec_div_scalar(&vec_sub(&thv, &hv), d1);
            let unit_neg = vec_div_scalar(&vec_sub(&thv, &hu), d2);
            let g_recon = vec_sub(&unit_direct, &unit_neg);
            let g_direct = neg_vec(&unit_direct);
            let g_neg = unit_neg;
            (g_recon, g_direct, g_neg)
        } else {
            (vec_zero(self.dims), vec_zero(self.dims), vec_zero(self.dims))
        };

        let mut grads = GradMap::new();
        let ghost g0 = grads;
        extract_grads(&mut grads, &hv_vars, &g_direct, total_count_exec(&hv_vars));
        let ghost g1 = grads;
        extract_grads(&mut grads, &thv_vars, &g_recon, total_count_exec(&thv_vars));
        let ghost g2 = grads;
        extract_grads(&mut grads, &hu_vars, &g_neg, total_count_exec(&hu_vars));
        proof {
            let w = (neg_node, hv_vars, thv_vars, hu_vars);
            let d = feature_embeddings.dims as nat;
            assert(thv@ == averaged_pool(thv_vars, *feature_embeddings, d));
            assert(hv@ == averaged_pool(hv_vars, *feature_embeddings, d));
            assert(hu@ == averaged_pool(hu_vars, *feature_embeddings, d));
            assert(x == Self::hinge_arg(thv@, hv@, hu@, self.gamma));
            assert(g_direct@ == Self::upstream_direct(thv@, hv@, hu@, self.gamma, d));
            assert(g_recon@ == Self::upstream_recon(thv@, hv@, hu@, self.gamma, d));
            assert(g_neg@ == Self::upstream_neg(thv@, hv@, hu@, self.gamma, d));
            assert forall|g: usize|
                grads.spec_get(g) == self.step_grad(*feature_embeddings, w, g) by {
                crate::model::lemma_count_in_nonneg(hv_vars.entries@, g);
                crate::model::lemma_count_in_nonneg(thv_vars.entries@, g);
                crate::model::lemma_count_in_nonneg(hu_vars.entries@, g);
                // what the first extraction left for g
                if hv_vars.count_of(g) > 0 {
                    assert(crate::model::contains_feat(hv_vars.entries@, g)) by {
                        if !crate::model::contains_feat(hv_vars.entries@, g) {
                            crate::model::lemma_count_in_absent(hv_vars.entries@, g);
                        }
                    }
                    let i = choose|i: int|
                        0 <= i < hv_vars.entries@.len() && (#[trigger] hv_vars.entries@[i]).0
                            == g;
                    crate::model::lemma_count_in_unique(hv_vars.entries@, i);
                    assert(g0.spec_get(hv_vars.entries@[i].0) is None);
                    assert(hv_vars.entries@[i].1 == hv_vars.count_of(g) as u64);
                    assert(g1.spec_get(g) == Self::finite_share(hv_vars, g, g_direct@));
                } else {
                    assert(g1.spec_get(g) is None);
                    assert(Self::finite_share(hv_vars, g, g_direct@) is None);
                }
                // what the second left
                if g1.spec_get(g) is Some {
                    assert(g2.spec_get(g) == g1.spec_get(g));
                } else {
                    if thv_vars.count_of(g) > 0 {
                        assert(crate::model::contains_feat(thv_vars.entries@, g)) by {
                            if !crate::model::contains_feat(thv_vars.entries@, g) {
                                crate::model::lemma_count_in_absent(thv_vars.entries@, g);
                            }
                        }
                        let i = choose|i: int|
                            0 <= i < thv_vars.entries@.len() && (
                            #[trigger] thv_vars.entries@[i]).0 == g;
                        crate::model::lemma_count_in_unique(thv_vars.entries@, i);
                        assert(thv_vars.entries@[i].1 == thv_vars.count_of(g) as u64);
                        assert(g2.spec_get(g) == Self::finite_share(thv_vars, g, g_recon@));
                    } else {
                        assert(g2.spec_get(g) is None);
                        assert(Self::finite_share(thv_vars, g, g_recon@) is None);
                    }
                }
                // and the third
                if g2.spec_get(g) is Some {
                    assert(grads.spec_get(g) == g2.spec_get(g));
                } else {
                    if hu_vars.count_of(g) > 0 {
                        assert(crate::model::contains_feat(hu_vars.entries@, g)) by {
                            if !crate::model::contains_feat(hu_vars.entries@, g) {
                                crate::model::lemma_count_in_absent(hu_vars.entries@, g);
                            }
                        }
                        let i = choose|i: int|
                            0 <= i < hu_vars.entries@.len() && (#[trigger] hu_vars.entries@[i]).0
                                == g;
                        crate::model::lemma_count_in_unique(hu_vars.entries@, i);
                        assert(hu_vars.entries@[i].1 == hu_vars.count_of(g) as u64);
                        assert(grads.spec_get(g) == Self::finite_share(hu_vars, g, g_neg@));
                    } else {
                        assert(grads.spec_get(g) is None);
                        assert(Self::finite_share(hu_vars, g, g_neg@) is None);
                    }
                }
            }
            assert(loss == margin_loss_bits(
                averaged_pool(thv_vars, *feature_embeddings, d),
                averaged_pool(hv_vars, *feature_embeddings, d),
                averaged_pool(hu_vars, *feature_embeddings, d),
                self.gamma,
            ));
            assert(self.run_pass_witnessed(
                *graph,
                *features,
                *feature_embeddings,
                node,
                (loss, grads),
                w,
            ));
        }
        (loss, grads)
    }

    /// Train the feature embeddings, then evaluate the model once per node
    /// over the finished table to produce the node-embedding table.  Returns
    /// (node embeddings, feature embeddings, ghost per-node feature maps):
    /// each node's row is the averaged pooling of its own full feature
    /// multiset over the finalized feature table.
    pub fn learn(&self, graph: &Graph, features: &FeatureStore) -> (out: (
        EmbeddingStore,
        EmbeddingStore,
        Ghost<Seq<FeatureMap>>,
    ))
        requires
            self.can_run(*graph, *features),
        ensures
            out.0.wf(),
            out.0.dims == self.dims,
            out.0.spec_len() == graph.spec_len(),
            out.1.wf(),
            out.1.dims == self.dims,
            out.1.spec_len() == features.spec_len(),
            out.2@.len() == graph.spec_len(),
            forall|n: int|
                #![trigger out.2@[n]]
                0 <= n < graph.spec_len() ==> {
                    &&& out.2@[n].wf()
                    &&& forall|g: usize|
                        out.2@[n].count_of(g) == features.features@[n]@.to_multiset().count(g)
                    &&& out.0.row_at(n) == averaged_pool(out.2@[n], out.1, self.dims as nat)
                },
    {
        let (feat_embeds, _losses, _node_losses) = self.learn_feature_embeddings(graph, features);
        let n_nodes = graph.len();
        let mut es = EmbeddingStore::new(n_nodes, self.dims, Distance::Cosine);
        let ghost mut maps: Seq<FeatureMap> = Seq::empty();
        let mut rng = rng_from_seed(self.seed);
        let mut node: usize = 0;
        while node < n_nodes
            invariant
                self.can_run(*graph, *features),
                n_nodes == graph.spec_len(),
                feat_embeds.wf(),
                feat_embeds.dims == self.dims,
                feat_embeds.spec_len() == features.spec_len(),
                node <= n_nodes,
                es.wf(),
                es.dims == self.dims,
                es.spec_len() == n_nodes,
                maps.len() == node,
                forall|n2: int|
                    #![trigger maps[n2]]
                    0 <= n2 < node ==> {
                        &&& maps[n2].wf()
                        &&& forall|g: usize|
                            maps[n2].count_of(g) == features.features@[n2]@.to_multiset().count(
                                g,
                            )
                        &&& es.row_at(n2) == averaged_pool(maps[n2], feat_embeds, self.dims as nat)
                    },
            decreases n_nodes - node,
        {
            let (vars, node_embedding) = construct_node_embedding(
                node,
                features,
                &feat_embeds,
                None,
                &mut rng,
            );
            es.set_embedding(node, node_embedding);
            proof {
                maps = maps.push(vars);
                assert(maps[node as int] == vars);
                assert forall|n2: int| #![trigger maps[n2]] 0 <= n2 < node + 1 implies {
                    &&& maps[n2].wf()
                    &&& forall|g: usize|
                        maps[n2].count_of(g) == features.features@[n2]@.to_multiset().count(g)
                    &&& es.row_at(n2) == averaged_pool(maps[n2], feat_embeds, self.dims as nat)
                } by {
                    if n2 < node {
                        assert(maps[n2] == maps.drop_last()[n2]);
                        assert(es.row_at(n2) == averaged_pool(
                            maps[n2],
                            feat_embeds,
                            self.dims as nat,
                        ));
                    }
                }
            }
            node += 1;
        }
        (es, feat_embeds, Ghost(maps))
    }
}

/// The saturated total multiplicity of a feature map, at runtime.
pub fn total_count_exec(map: &FeatureMap) -> (r: u64)
    ensures
        r == total_count(map.entries@),
{
    let n = map.entries.len();
    let mut total: u64 = 0;
    let mut i: usize = 0;
    while i < n
        invariant
            n == map.entries@.len(),
            i <= n,
            total == total_count(map.entries@.take(i as int)),
        decreases n - i,
    {
        let c = map.entries[i].1;
        total = if total <= u64::MAX - c {
            total + c
        } else {
            u64::MAX
        };
        proof {
            assert(map.entries@.take(i + 1).drop_last() =~= map.entries@.take(i as int));
            assert(map.entries@.take(i + 1).last() == map.entries@[i as int]);
        }
        i += 1;
    }
    proof {
        assert(map.entries@.take(n as int) =~= map.entries@);
    }
    total
}

} // verus!
