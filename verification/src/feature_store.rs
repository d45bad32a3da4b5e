//! Per-node discrete feature ids and their vocabulary.
//!
//! One entry per node, each a list of feature ids (duplicates allowed).
//! Feature names are interned through a `Vocab` under the node type `feat`,
//! so the same name always receives the same id.  Before training starts,
//! `fill_missing_nodes` gives every feature-less node one fresh private id
//! beyond the vocabulary range, so that every node has at least one feature.

use vstd::prelude::*;

use crate::strutil::clone_string;
use crate::vocab::Vocab;

verus! {

/// Feature lists of all nodes plus the feature-name vocabulary.
pub struct FeatureStore {
    /// Feature ids of each node, indexed by node id.
    pub features: Vec<Vec<usize>>,
    /// Interning of feature names; a feature id below `feature_vocab.len()`
    /// is a named feature.
    pub feature_vocab: Vocab,
    /// How many synthesized singleton ids `fill_missing_nodes` handed out.
    pub empty_nodes: usize,
}

/// How many of the first `n` feature lists are empty.
pub open spec fn empties_before(fs: Seq<Vec<usize>>, n: int) -> int
    decreases n,
{
    if n <= 0 {
        0
    } else {
        empties_before(fs, n - 1) + if fs[n - 1]@.len() == 0 {
            1int
        } else {
            0int
        }
    }
}

/// The empty-list count over a prefix never exceeds the prefix length.
pub proof fn lemma_empties_before_bound(fs: Seq<Vec<usize>>, n: int)
    requires
        0 <= n,
    ensures
        0 <= empties_before(fs, n) <= n,
    decreases n,
{
    if n > 0 {
        lemma_empties_before_bound(fs, n - 1);
    }
}

/// Whether `key` is the pair ("feat", one of the given names).
pub open spec fn key_from_names(key: (Seq<char>, Seq<char>), names: Seq<String>) -> bool
    decreases names.len(),
{
    if names.len() == 0 {
        false
    } else {
        key == ("feat"@, names.last()@) || key_from_names(key, names.drop_last())
    }
}

/// A key equal to ("feat", the `k`-th name) is from the names.
pub proof fn lemma_key_from_names_at(key: (Seq<char>, Seq<char>), names: Seq<String>, k: int)
    requires
        0 <= k < names.len(),
        key == ("feat"@, names[k]@),
    ensures
        key_from_names(key, names),
    decreases names.len(),
{
    if k == names.len() - 1 {
    } else {
        assert(names.drop_last()[k] == names[k]);
        lemma_key_from_names_at(key, names.drop_last(), k);
    }
}

impl FeatureStore {
    /// Size of the feature-embedding table this store calls for: vocabulary
    /// size plus synthesized singleton count.
    pub open spec fn spec_len(self) -> int {
        self.feature_vocab.spec_len() + self.empty_nodes
    }

    /// Number of nodes.
    pub open spec fn num_nodes(self) -> nat {
        self.features@.len()
    }

    /// Well-formed: the vocabulary is well-formed and every stored feature id
    /// is below `spec_len`.
    pub open spec fn wf(self) -> bool {
        &&& self.feature_vocab.wf()
        &&& forall|n: int, k: int|
            0 <= n < self.features@.len() && 0 <= k < self.features@[n]@.len()
                ==> self.features@[n]@[k] < self.spec_len()
    }

    /// A store for `size` nodes, all without features, with an empty
    /// vocabulary carrying the given instance identity (the caller is the
    /// allocating factory and must keep identities distinct within a run).
    pub fn new(size: usize, vocab_id: usize) -> (r: FeatureStore)
        ensures
            r.wf(),
            r.num_nodes() == size,
            r.spec_len() == 0,
            r.empty_nodes == 0,
            r.feature_vocab.spec_len() == 0,
            r.feature_vocab.vocab_id == vocab_id,
            forall|n: int| 0 <= n < size ==> r.features@[n]@.len() == 0,
    {
        let mut features: Vec<Vec<usize>> = Vec::new();
        let mut i: usize = 0;
        while i < size
            invariant
                i <= size,
                features@.len() == i,
                forall|n: int| 0 <= n < i ==> features@[n]@.len() == 0,
            decreases size - i,
        {
            features.push(Vec::new());
            i += 1;
        }
        FeatureStore { features, feature_vocab: Vocab::new(vocab_id), empty_nodes: 0 }
    }

    /// Replace the node's feature list with the ids of the given names,
    /// interning each name (idempotently) in the feature vocabulary.
    pub fn set_features(&mut self, node: usize, node_features: Vec<String>)
        requires
            old(self).wf(),
            node < old(self).num_nodes(),
        ensures
            final(self).wf(),
            final(self).num_nodes() == old(self).num_nodes(),
            final(self).empty_nodes == old(self).empty_nodes,
            final(self).feature_vocab.spec_len() >= old(self).feature_vocab.spec_len(),
            // the vocabulary grows by at most one pair per name given, and
            // only by ("feat", one of the given names)
            final(self).feature_vocab.spec_len() <= old(self).feature_vocab.spec_len()
                + node_features@.len(),
            forall|i: int|
                old(self).feature_vocab.spec_len() <= i < final(self).feature_vocab.spec_len()
                    ==> key_from_names(
                    #[trigger] final(self).feature_vocab.key_at(i),
                    node_features@,
                ),
            // ids that existed keep their keys
            forall|i: int|
                0 <= i < old(self).feature_vocab.spec_len() ==> final(self).feature_vocab.key_at(i) == old(self).feature_vocab.key_at(i),
            // other nodes' lists are untouched
            forall|n: int|
                0 <= n < old(self).num_nodes() && n != node ==> final(self).features@[n]
                    == old(self).features@[n],
            // the node's new list carries one id per name, and each id maps
            // back to that name under the node type `feat`
            final(self).features@[node as int]@.len() == node_features@.len(),
            forall|k: int|
                0 <= k < node_features@.len() ==> {
                    &&& (#[trigger] final(self).features@[node as int]@[k]) < final(self).feature_vocab.spec_len()
                    &&& final(self).feature_vocab.key_at(
                        final(self).features@[node as int]@[k] as int,
                    ) == ("feat"@, node_features@[k]@)
                },
    {
        let mut ids: Vec<usize> = Vec::new();
        let mut k: usize = 0;
        let n_names = node_features.len();
        while k < n_names
            invariant
                self.feature_vocab.wf(),
                self.features == old(self).features,
                self.empty_nodes == old(self).empty_nodes,
                n_names == node_features@.len(),
                k <= n_names,
                ids@.len() == k,
                self.feature_vocab.spec_len() >= old(self).feature_vocab.spec_len(),
                self.feature_vocab.spec_len() <= old(self).feature_vocab.spec_len() + k,
                forall|i: int|
                    0 <= i < old(self).feature_vocab.spec_len() ==> self.feature_vocab.key_at(
                        i,
                    ) == old(self).feature_vocab.key_at(i),
                forall|i: int|
                    old(self).feature_vocab.spec_len() <= i < self.feature_vocab.spec_len()
                        ==> key_from_names(
                        #[trigger] self.feature_vocab.key_at(i),
                        node_features@,
                    ),
                forall|j: int|
                    0 <= j < k ==> {
                        &&& (#[trigger] ids@[j]) < self.feature_vocab.spec_len()
                        &&& self.feature_vocab.key_at(ids@[j] as int) == (
                            "feat"@,
                            node_features@[j]@,
                        )
                    },
            decreases n_names - k,
        {
            let ghost pre_vocab = self.feature_vocab;
            let name = clone_string(&node_features[k]);
            let id = self.feature_vocab.get_or_insert("feat".to_owned(), name);
            proof {
                assert forall|j: int| 0 <= j < k implies {
                    &&& (#[trigger] ids@[j]) < self.feature_vocab.spec_len()
                    &&& self.feature_vocab.key_at(ids@[j] as int) == (
                        "feat"@,
                        node_features@[j]@,
                    )
                } by {
                    assert(ids@[j] < pre_vocab.spec_len());
                    assert(pre_vocab.key_at(ids@[j] as int) == ("feat"@, node_features@[j]@));
                }
                assert forall|i: int|
                    old(self).feature_vocab.spec_len() <= i < self.feature_vocab.spec_len()
                        implies key_from_names(
                        #[trigger] self.feature_vocab.key_at(i),
                        node_features@,
                    ) by {
                    if i < pre_vocab.spec_len() {
                        assert(self.feature_vocab.key_at(i) == pre_vocab.key_at(i));
                        assert(key_from_names(pre_vocab.key_at(i), node_features@));
                    } else {
                        assert(self.feature_vocab.key_at(i) == ("feat"@, node_features@[
                            k as int
                        ]@));
                        lemma_key_from_names_at(
                            self.feature_vocab.key_at(i),
                            node_features@,
                            k as int,
                        );
                    }
                }
            }
            ids.push(id);
            k += 1;
        }
        self.features.set(node, ids);
        proof {
            assert forall|n: int, k2: int|
                0 <= n < self.features@.len() && 0 <= k2 < self.features@[n]@.len() implies self
                .features@[n]@[k2] < self.spec_len() by {
                if n != node {
                    assert(self.features@[n] == old(self).features@[n]);
                    assert(old(self).features@[n]@[k2] < old(self).spec_len());
                }
            }
        }
    }

    /// The node's feature ids.
    pub fn get_features(&self, node: usize) -> (r: &Vec<usize>)
        requires
            node < self.num_nodes(),
        ensures
            r == &self.features@[node as int],
    {
        &self.features[node]
    }

    /// Size of the feature-embedding table: vocabulary size plus synthesized
    /// singleton count.
    pub fn len(&self) -> (r: usize)
        requires
            self.spec_len() <= usize::MAX,
        ensures
            r == self.spec_len(),
    {
        self.feature_vocab.len() + self.empty_nodes
    }

    /// Give every feature-less node one fresh private feature id, starting
    /// right past the vocabulary range.  Afterwards every node's feature list
    /// is non-empty.  The precondition forbids a second run, which would hand
    /// out already-used ids.
    pub fn fill_missing_nodes(&mut self)
        requires
            old(self).wf(),
            old(self).empty_nodes == 0,
            old(self).feature_vocab.spec_len() + old(self).num_nodes() <= usize::MAX,
        ensures
            final(self).wf(),
            final(self).num_nodes() == old(self).num_nodes(),
            final(self).feature_vocab == old(self).feature_vocab,
            final(self).empty_nodes == empties_before(
                old(self).features@,
                old(self).num_nodes() as int,
            ),
            // nodes that had features are untouched
            forall|n: int|
                0 <= n < old(self).num_nodes() && old(self).features@[n]@.len() > 0 ==> final(self).features@[n] == old(self).features@[n],
            // each previously empty node holds exactly one fresh id, unique
            // to it
            forall|n: int|
                0 <= n < old(self).num_nodes() && old(self).features@[n]@.len() == 0 ==> (
                #[trigger] final(self).features@[n]@) =~= seq![
                    (old(self).feature_vocab.spec_len() + empties_before(
                        old(self).features@,
                        n,
                    )) as usize,
                ],
            // every node now has at least one feature
            forall|n: int|
                0 <= n < final(self).num_nodes() ==> (#[trigger] final(self).features@[n]@).len() > 0,
    {
        let vocab_len = self.feature_vocab.len();
        let mut idxs: usize = vocab_len;
        let mut added: usize = 0;
        let n_nodes = self.features.len();
        let mut n: usize = 0;
        while n < n_nodes
            invariant
                old(self).wf(),
                self.feature_vocab == old(self).feature_vocab,
                vocab_len == old(self).feature_vocab.spec_len(),
                old(self).empty_nodes == 0,
                n_nodes == old(self).num_nodes(),
                vocab_len + n_nodes <= usize::MAX,
                self.empty_nodes == 0,
                n <= n_nodes,
                self.features@.len() == n_nodes,
                added == empties_before(old(self).features@, n as int),
                idxs == vocab_len + added,
                forall|m: int| n <= m < n_nodes ==> self.features@[m] == old(self).features@[m],
                forall|m: int|
                    0 <= m < n && old(self).features@[m]@.len() > 0 ==> self.features@[m] == old(self).features@[m],
                forall|m: int|
                    0 <= m < n && old(self).features@[m]@.len() == 0 ==> (
                    #[trigger] self.features@[m]@) =~= seq![
                        (vocab_len + empties_before(old(self).features@, m)) as usize,
                    ],
            decreases n_nodes - n,
        {
            proof {
                lemma_empties_before_bound(old(self).features@, n as int);
            }
            if self.features[n].is_empty() {
                let mut single: Vec<usize> = Vec::new();
                single.push(idxs);
                self.features.set(n, single);
                idxs += 1;
                added += 1;
            }
            n += 1;
        }
        self.empty_nodes = added;
        proof {
            lemma_empties_before_bound(old(self).features@, n_nodes as int);
            assert forall|n2: int, k: int|
                0 <= n2 < self.features@.len() && 0 <= k < self.features@[n2]@.len() implies self
                .features@[n2]@[k] < self.spec_len() by {
                if old(self).features@[n2]@.len() == 0 {
                    lemma_empties_before_bound(old(self).features@, n2);
                    lemma_empties_before_monotone(old(self).features@, n2, n_nodes as int);
                    assert(vocab_len + empties_before(old(self).features@, n2) <= usize::MAX);
                    assert(self.features@[n2]@ =~= seq![
                        (vocab_len + empties_before(old(self).features@, n2)) as usize,
                    ]);
                    assert(self.features@[n2]@[k] == (vocab_len + empties_before(
                        old(self).features@,
                        n2,
                    )) as usize);
                } else {
                    assert(self.features@[n2] == old(self).features@[n2]);
                    assert(old(self).features@[n2]@[k] < old(self).spec_len());
                }
            }
        }
    }

    /// Hand the feature vocabulary out, consuming the store.
    pub fn get_vocab(self) -> (r: Vocab)
        ensures
            r == self.feature_vocab,
    {
        self.feature_vocab
    }
}

/// Counting empties over a longer prefix counts strictly past any empty slot
/// inside it.
pub proof fn lemma_empties_before_monotone(fs: Seq<Vec<usize>>, n: int, m: int)
    requires
        0 <= n < m,
        fs[n]@.len() == 0,
    ensures
        empties_before(fs, n) < empties_before(fs, m),
    decreases m,
{
    if m == n + 1 {
    } else {
        lemma_empties_before_monotone(fs, n, m - 1);
    }
}

} // verus!
