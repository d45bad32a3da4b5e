//! Node-embedding construction: gather a feature multiset and pool it.
//!
//! `construct_node_embedding` pools a node's own features ("direct"),
//! `reconstruct_node_embedding` pools the features of its outgoing neighbors
//! ("reconstruction"), and `construct_from_multiple_nodes` is the shared
//! generalization over an arbitrary node sequence.  Averaged pooling is the
//! multiplicity-weighted arithmetic mean; attention pooling lives in
//! `attention`.

use vstd::prelude::*;

use crate::embedding::EmbeddingStore;
use crate::feature_store::FeatureStore;
use crate::fp::{int_bits, f_from_int};
use crate::graph::Graph;
use crate::rng::rng_choose;
use crate::vecmath::{
    add_vecs, div_vec, scale_vec, vec_add, vec_div_scalar, vec_scale, vec_zero, zero_vec,
};

verus! {

/// How many occurrences of feature `f` the entry list records.
pub open spec fn count_in(s: Seq<(usize, u64)>, f: usize) -> int
    decreases s.len(),
{
    if s.len() == 0 {
        0
    } else {
        count_in(s.drop_last(), f) + if s.last().0 == f {
            s.last().1 as int
        } else {
            0
        }
    }
}

/// Whether feature `f` has an entry.
pub open spec fn contains_feat(s: Seq<(usize, u64)>, f: usize) -> bool {
    exists|i: int| 0 <= i < s.len() && (#[trigger] s[i]).0 == f
}

/// Replacing an entry by one with the same key keeps the key set.
pub proof fn lemma_contains_update(s: Seq<(usize, u64)>, i: int, e: (usize, u64), g: usize)
    requires
        0 <= i < s.len(),
        s[i].0 == e.0,
    ensures
        contains_feat(s.update(i, e), g) == contains_feat(s, g),
{
    if contains_feat(s, g) {
        let j = choose|j: int| 0 <= j < s.len() && (#[trigger] s[j]).0 == g;
        if j == i {
            assert(s.update(i, e)[i].0 == g);
        } else {
            assert(s.update(i, e)[j].0 == g);
        }
    }
    if contains_feat(s.update(i, e), g) {
        let j = choose|j: int|
            0 <= j < s.update(i, e).len() && (#[trigger] s.update(i, e)[j]).0 == g;
        if j == i {
            assert(s[i].0 == g);
        } else {
            assert(s[j].0 == g);
        }
    }
}

/// Appending an entry adds its count for its key and nothing else.
pub proof fn lemma_count_in_push(s: Seq<(usize, u64)>, e: (usize, u64), f: usize)
    ensures
        count_in(s.push(e), f) == count_in(s, f) + if e.0 == f {
            e.1 as int
        } else {
            0
        },
{
    assert(s.push(e).drop_last() =~= s);
    assert(s.push(e).last() == e);
}

/// Replacing entry `i` by one with the same key shifts that key's count by
/// the count difference and leaves other keys alone.
pub proof fn lemma_count_in_update(s: Seq<(usize, u64)>, i: int, e: (usize, u64), f: usize)
    requires
        0 <= i < s.len(),
        s[i].0 == e.0,
    ensures
        count_in(s.update(i, e), f) == count_in(s, f) + if e.0 == f {
            e.1 - s[i].1
        } else {
            0
        },
    decreases s.len(),
{
    if i == s.len() - 1 {
        assert(s.update(i, e).drop_last() =~= s.drop_last());
        assert(s.update(i, e).last() == e);
    } else {
        assert(s.update(i, e).drop_last() =~= s.drop_last().update(i, e));
        assert(s.update(i, e).last() == s.last());
        lemma_count_in_update(s.drop_last(), i, e, f);
    }
}

/// Total multiplicity recorded by the entry list, as an unbounded integer.
pub open spec fn map_total_in(s: Seq<(usize, u64)>) -> int
    decreases s.len(),
{
    if s.len() == 0 {
        0
    } else {
        map_total_in(s.drop_last()) + s.last().1
    }
}

/// Appending an entry adds its multiplicity to the total.
pub proof fn lemma_map_total_push(s: Seq<(usize, u64)>, e: (usize, u64))
    ensures
        map_total_in(s.push(e)) == map_total_in(s) + e.1,
{
    assert(s.push(e).drop_last() =~= s);
    assert(s.push(e).last() == e);
}

/// Replacing an entry shifts the total by the multiplicity difference.
pub proof fn lemma_map_total_update(s: Seq<(usize, u64)>, i: int, e: (usize, u64))
    requires
        0 <= i < s.len(),
    ensures
        map_total_in(s.update(i, e)) == map_total_in(s) - s[i].1 + e.1,
    decreases s.len(),
{
    if i == s.len() - 1 {
        assert(s.update(i, e).drop_last() =~= s.drop_last());
        assert(s.update(i, e).last() == e);
    } else {
        assert(s.update(i, e).drop_last() =~= s.drop_last().update(i, e));
        assert(s.update(i, e).last() == s.last());
        lemma_map_total_update(s.drop_last(), i, e);
    }
}

/// No single feature's count exceeds the total.
pub proof fn lemma_count_le_total(s: Seq<(usize, u64)>, f: usize)
    ensures
        count_in(s, f) <= map_total_in(s),
    decreases s.len(),
{
    if s.len() > 0 {
        lemma_count_le_total(s.drop_last(), f);
    }
}

/// A multiplicity bumped by one, saturating at `u64::MAX`.
pub open spec fn sat_inc(c: u64) -> u64 {
    if c < u64::MAX {
        (c + 1) as u64
    } else {
        c
    }
}

/// The entry carrying `f` bumped in place, every other entry untouched.
pub open spec fn bump_entry(s: Seq<(usize, u64)>, f: usize) -> Seq<(usize, u64)>
    decreases s.len(),
{
    if s.len() == 0 {
        s
    } else if s.last().0 == f {
        s.update(s.len() - 1, (f, sat_inc(s.last().1)))
    } else {
        bump_entry(s.drop_last(), f).push(s.last())
    }
}

/// The entry list after recording one more occurrence of `f`: its entry
/// bumped in place when the key is present, a fresh entry of multiplicity
/// one appended otherwise — so entries stand in first-occurrence order.
pub open spec fn entries_after_add(s: Seq<(usize, u64)>, f: usize) -> Seq<(usize, u64)> {
    if contains_feat(s, f) {
        bump_entry(s, f)
    } else {
        s.push((f, 1u64))
    }
}

/// The entry list after recording every occurrence of `chosen`, in order.
pub open spec fn entries_after_adds(s: Seq<(usize, u64)>, chosen: Seq<usize>) -> Seq<
    (usize, u64),
>
    decreases chosen.len(),
{
    if chosen.len() == 0 {
        s
    } else {
        entries_after_add(entries_after_adds(s, chosen.drop_last()), chosen.last())
    }
}

/// Under distinct keys, bumping the key of entry `i` is the in-place update
/// of that entry.
pub proof fn lemma_bump_at_unique(s: Seq<(usize, u64)>, i: int)
    requires
        forall|p: int, q: int|
            0 <= p < q < s.len() ==> (#[trigger] s[p]).0 != (#[trigger] s[q]).0,
        0 <= i < s.len(),
    ensures
        bump_entry(s, s[i].0) == s.update(i, (s[i].0, sat_inc(s[i].1))),
    decreases s.len(),
{
    if i == s.len() - 1 {
    } else {
        let rest = s.drop_last();
        assert forall|p: int, q: int|
            0 <= p < q < rest.len() implies (#[trigger] rest[p]).0 != (#[trigger] rest[q]).0 by {
            assert(s[p] == rest[p] && s[q] == rest[q]);
        }
        assert(rest[i] == s[i]);
        assert(s.last().0 != s[i].0);
        lemma_bump_at_unique(rest, i);
        assert(s.update(i, (s[i].0, sat_inc(s[i].1))) =~= rest.update(
            i,
            (s[i].0, sat_inc(s[i].1)),
        ).push(s.last()));
    }
}

/// A multiset of features: one entry per distinct feature id with its
/// multiplicity.
pub struct FeatureMap {
    /// (feature id, multiplicity) entries; keys are distinct, multiplicities
    /// at least 1.
    pub entries: Vec<(usize, u64)>,
}

impl FeatureMap {
    /// Well-formed: keys distinct, every multiplicity at least 1.
    pub open spec fn wf(self) -> bool {
        &&& forall|i: int, j: int|
            0 <= i < j < self.entries@.len() ==> (#[trigger] self.entries@[i]).0 != (
            #[trigger] self.entries@[j]).0
        &&& forall|i: int| 0 <= i < self.entries@.len() ==> (#[trigger] self.entries@[i]).1 >= 1
    }

    /// How many occurrences of feature `f` are recorded.
    pub open spec fn count_of(self, f: usize) -> int {
        count_in(self.entries@, f)
    }

    /// Total multiplicity over all entries.
    pub open spec fn map_total(self) -> int {
        map_total_in(self.entries@)
    }

    /// Every key is below `n`.
    pub open spec fn keys_below(self, n: int) -> bool {
        forall|i: int| 0 <= i < self.entries@.len() ==> (#[trigger] self.entries@[i]).0 < n
    }

    /// An empty multiset.
    pub fn new() -> (r: FeatureMap)
        ensures
            r.wf(),
            r.entries@.len() == 0,
            forall|f: usize| r.count_of(f) == 0,
            r.map_total() == 0,
    {
        proof {
            assert forall|f: usize| count_in(Seq::<(usize, u64)>::empty(), f) == 0 by {}
        }
        FeatureMap { entries: Vec::new() }
    }

    /// Record one more occurrence of feature `f` (a multiplicity saturates at
    /// `u64::MAX` rather than overflow).
    pub fn add_feature(&mut self, f: usize)
        requires
            old(self).wf(),
        ensures
            final(self).wf(),
            forall|g: usize|
                g != f ==> final(self).count_of(g) == old(self).count_of(g),
            old(self).count_of(f) < u64::MAX ==> final(self).count_of(f) == old(self).count_of(f)
                + 1,
            final(self).count_of(f) <= old(self).count_of(f) + 1,
            final(self).map_total() >= old(self).map_total(),
            old(self).map_total() < u64::MAX ==> final(self).map_total() == old(self).map_total()
                + 1,
            final(self).count_of(f) >= 1,
            forall|g: usize|
                (final(self).count_of(g) > 0) == (old(self).count_of(g) > 0 || g == f),
            forall|n: int| old(self).keys_below(n) && f < n ==> final(self).keys_below(n),
            final(self).entries@ == entries_after_add(old(self).entries@, f),
    {
        let n_entries = self.entries.len();
        let mut i: usize = 0;
        while i < n_entries
            invariant
                old(self).wf(),
                self == old(self),
                n_entries == self.entries@.len(),
                i <= n_entries,
                forall|j: int| 0 <= j < i ==> (#[trigger] self.entries@[j]).0 != f,
            decreases n_entries - i,
        {
            if self.entries[i].0 == f {
                let c = self.entries[i].1;
                let bumped = if c < u64::MAX {
                    c + 1
                } else {
                    c
                };
                let ghost pre = self.entries@;
                self.entries.set(i, (f, bumped));
                proof {
                    lemma_count_in_entry(pre, i as int);
                    assert(self.entries@ =~= pre.update(i as int, (f, bumped)));
                    assert((old(self).entries@[i as int]).1 >= 1);
                    assert(self.entries@[i as int] == (f, bumped));
                    assert forall|m: int|
                        0 <= m < self.entries@.len() implies (#[trigger] self.entries@[m]).0
                        == pre[m].0 && (#[trigger] self.entries@[m]).1 >= 1 by {
                        if m != i {
                            assert(self.entries@[m] == pre[m]);
                            assert((old(self).entries@[m]).1 >= 1);
                        }
                    }
                    assert forall|g: usize|
                        contains_feat(self.entries@, g) == contains_feat(pre, g) by {
                        lemma_contains_update(pre, i as int, (f, bumped), g);
                    }
                    assert(contains_feat(pre, f)) by {
                        assert(pre[i as int].0 == f);
                    }
                    assert forall|g: usize| true implies count_in(self.entries@, g) == count_in(
                        pre,
                        g,
                    ) + if g == f {
                        bumped - pre[i as int].1
                    } else {
                        0int
                    } by {
                        lemma_count_in_update(pre, i as int, (f, bumped), g);
                    }
                    assert(count_in(pre, f) >= pre[i as int].1 as int >= 0);
                    lemma_count_le_total(pre, f);
                    lemma_map_total_update(pre, i as int, (f, bumped));
                    lemma_count_in_entry(self.entries@, i as int);
                    assert(count_in(self.entries@, f) >= 1);
                    assert forall|g: usize|
                        (count_in(self.entries@, g) > 0) == (count_in(pre, g) > 0 || g
                            == f) by {
                        lemma_count_in_nonneg(pre, g);
                    }
                    assert(pre[i as int].0 == f);
                    assert(contains_feat(pre, f));
                    lemma_bump_at_unique(pre, i as int);
                    assert(bumped == sat_inc(pre[i as int].1));
                    assert(self.entries@ == entries_after_add(pre, f));
                }
                return ;
            }
            i += 1;
        }
        let ghost pre = self.entries@;
        self.entries.push((f, 1));
        proof {
            assert forall|g: usize| true implies count_in(self.entries@, g) == count_in(pre, g)
                + if g == f {
                1int
            } else {
                0int
            } by {
                lemma_count_in_push(pre, (f, 1u64), g);
            }
            lemma_count_in_absent(pre, f);
            lemma_map_total_push(pre, (f, 1u64));
            assert(count_in(self.entries@, f) >= 1);
            assert forall|g: usize|
                (count_in(self.entries@, g) > 0) == (count_in(pre, g) > 0 || g == f) by {
                lemma_count_in_nonneg(pre, g);
            }
            assert(self.entries@ == entries_after_add(pre, f));
        }
    }
}

/// A present key's entry count is part of (so at most) its recorded count,
/// and the recorded count of an absent key is zero.
pub proof fn lemma_count_in_entry(s: Seq<(usize, u64)>, i: int)
    requires
        0 <= i < s.len(),
    ensures
        count_in(s, s[i].0) >= s[i].1 as int,
    decreases s.len(),
{
    if i == s.len() - 1 {
        lemma_count_in_nonneg(s.drop_last(), s[i].0);
    } else {
        lemma_count_in_entry(s.drop_last(), i);
    }
}

/// Recorded counts are never negative.
pub proof fn lemma_count_in_nonneg(s: Seq<(usize, u64)>, f: usize)
    ensures
        count_in(s, f) >= 0,
    decreases s.len(),
{
    if s.len() > 0 {
        lemma_count_in_nonneg(s.drop_last(), f);
    }
}

/// Under distinct keys, a key's recorded count is exactly its one entry's
/// multiplicity.
pub proof fn lemma_count_in_unique(s: Seq<(usize, u64)>, i: int)
    requires
        forall|p: int, q: int|
            0 <= p < q < s.len() ==> (#[trigger] s[p]).0 != (#[trigger] s[q]).0,
        0 <= i < s.len(),
    ensures
        count_in(s, s[i].0) == s[i].1,
    decreases s.len(),
{
    let rest = s.drop_last();
    assert forall|p: int, q: int|
        0 <= p < q < rest.len() implies (#[trigger] rest[p]).0 != (#[trigger] rest[q]).0 by {
        assert(s[p] == rest[p] && s[q] == rest[q]);
    }
    if i == s.len() - 1 {
        assert(!contains_feat(rest, s[i].0)) by {
            if contains_feat(rest, s[i].0) {
                let j = choose|j: int| 0 <= j < rest.len() && (#[trigger] rest[j]).0 == s[i].0;
                assert(s[j].0 == s[i].0);
            }
        }
        lemma_count_in_absent(rest, s[i].0);
    } else {
        assert(rest[i] == s[i]);
        assert(s.last().0 != s[i].0);
        lemma_count_in_unique(rest, i);
    }
}

/// A key with no entry has recorded count zero.
pub proof fn lemma_count_in_absent(s: Seq<(usize, u64)>, f: usize)
    requires
        !contains_feat(s, f),
    ensures
        count_in(s, f) == 0,
    decreases s.len(),
{
    if s.len() > 0 {
        assert(!contains_feat(s.drop_last(), f)) by {
            assert forall|i: int| 0 <= i < s.drop_last().len() implies (
            #[trigger] s.drop_last()[i]).0 != f by {
                assert(s[i] == s.drop_last()[i]);
            }
        }
        lemma_count_in_absent(s.drop_last(), f);
        assert(s.last().0 != f) by {
            assert(s[s.len() - 1] == s.last());
        }
    }
}

/// Add every feature of `chosen` to the map, one occurrence per element.
fn add_all(map: &mut FeatureMap, chosen: &Vec<usize>, ghost_bound: Ghost<int>)
    requires
        old(map).wf(),
        old(map).keys_below(ghost_bound@),
        forall|k: int| 0 <= k < chosen@.len() ==> (#[trigger] chosen@[k]) < ghost_bound@,
    ensures
        final(map).wf(),
        final(map).keys_below(ghost_bound@),
        forall|g: usize|
            old(map).count_of(g) + chosen@.to_multiset().count(g) <= u64::MAX ==> final(map).count_of(g) == old(map).count_of(g) + chosen@.to_multiset().count(g),
        forall|g: usize|
            (final(map).count_of(g) > 0) == (old(map).count_of(g) > 0
                || chosen@.to_multiset().count(g) > 0),
        forall|g: usize|
            final(map).count_of(g) <= old(map).count_of(g) + chosen@.to_multiset().count(g),
        final(map).map_total() >= old(map).map_total(),
        old(map).map_total() + chosen@.len() <= u64::MAX ==> final(map).map_total() == old(map).map_total() + chosen@.len(),
        final(map).entries@ == entries_after_adds(old(map).entries@, chosen@),
{
    let n = chosen.len();
    let mut k: usize = 0;
    proof {
        broadcast use vstd::seq_lib::group_to_multiset_ensures;

        assert(chosen@.take(0) =~= Seq::<usize>::empty());
    }
    while k < n
        invariant
            map.wf(),
            map.keys_below(ghost_bound@),
            n == chosen@.len(),
            k <= n,
            forall|j: int| 0 <= j < chosen@.len() ==> (#[trigger] chosen@[j]) < ghost_bound@,
            forall|g: usize|
                old(map).count_of(g) + chosen@.take(k as int).to_multiset().count(g) <= u64::MAX
                    ==> map.count_of(g) == old(map).count_of(g) + chosen@.take(
                    k as int,
                ).to_multiset().count(g),
            forall|g: usize|
                (map.count_of(g) > 0) == (old(map).count_of(g) > 0 || chosen@.take(
                    k as int,
                ).to_multiset().count(g) > 0),
            forall|g: usize|
                map.count_of(g) <= old(map).count_of(g) + chosen@.take(
                    k as int,
                ).to_multiset().count(g),
            map.map_total() >= old(map).map_total(),
            old(map).map_total() + chosen@.len() <= u64::MAX ==> map.map_total() == old(map).map_total() + k,
            map.entries@ == entries_after_adds(old(map).entries@, chosen@.take(k as int)),
        decreases n - k,
    {
        let f = chosen[k];
        let ghost pre = *map;
        map.add_feature(f);
        proof {
            broadcast use vstd::seq_lib::group_to_multiset_ensures;

            assert(chosen@.take(k + 1).drop_last() =~= chosen@.take(k as int));
            assert(chosen@.take(k + 1).last() == f);
            assert(map.entries@ == entries_after_adds(
                old(map).entries@,
                chosen@.take(k + 1),
            ));
            assert(chosen@.take(k + 1) =~= chosen@.take(k as int).push(f));
            assert(chosen@.take(k + 1).to_multiset() =~= chosen@.take(
                k as int,
            ).to_multiset().insert(f));
            assert forall|g: usize|
                old(map).count_of(g) + chosen@.take(k + 1).to_multiset().count(g)
                    <= u64::MAX implies map.count_of(g) == old(map).count_of(g) + chosen@.take(
                k + 1,
            ).to_multiset().count(g) by {
                lemma_count_in_nonneg(old(map).entries@, g);
                if g == f {
                    assert(chosen@.take(k + 1).to_multiset().count(g) == chosen@.take(
                        k as int,
                    ).to_multiset().count(g) + 1);
                    assert(pre.count_of(f) < u64::MAX);
                } else {
                    assert(chosen@.take(k + 1).to_multiset().count(g) == chosen@.take(
                        k as int,
                    ).to_multiset().count(g));
                }
            }
            assert forall|g: usize|
                map.count_of(g) <= old(map).count_of(g) + chosen@.take(
                    k + 1,
                ).to_multiset().count(g) by {
                assert(chosen@.take(k + 1).to_multiset().count(g) == chosen@.take(
                    k as int,
                ).to_multiset().count(g) + if g == f {
                    1int
                } else {
                    0int
                });
            }
            assert forall|g: usize|
                (map.count_of(g) > 0) == (old(map).count_of(g) > 0 || chosen@.take(
                    k + 1,
                ).to_multiset().count(g) > 0) by {
                assert(chosen@.take(k + 1).to_multiset().count(g) == chosen@.take(
                    k as int,
                ).to_multiset().count(g) + if g == f {
                    1int
                } else {
                    0int
                });
                assert((pre.count_of(g) > 0) == (old(map).count_of(g) > 0 || chosen@.take(
                    k as int,
                ).to_multiset().count(g) > 0));
            }
        }
        k += 1;
    }
    proof {
        assert(chosen@.take(n as int) =~= chosen@);
    }
}

/// Under distinct keys, no single feature's recorded count can exceed its
/// one entry's multiplicity, which fits in a `u64`.
pub proof fn lemma_count_in_le_max(s: Seq<(usize, u64)>, f: usize)
    requires
        forall|i: int, j: int|
            0 <= i < j < s.len() ==> (#[trigger] s[i]).0 != (#[trigger] s[j]).0,
    ensures
        count_in(s, f) <= u64::MAX,
    decreases s.len(),
{
    if s.len() > 0 {
        let rest = s.drop_last();
        assert forall|i: int, j: int|
            0 <= i < j < rest.len() implies (#[trigger] rest[i]).0 != (#[trigger] rest[j]).0 by {
            assert(s[i] == rest[i] && s[j] == rest[j]);
        }
        lemma_count_in_le_max(rest, f);
        if s.last().0 == f {
            assert(!contains_feat(rest, f)) by {
                if contains_feat(rest, f) {
                    let i = choose|i: int| 0 <= i < rest.len() && (#[trigger] rest[i]).0 == f;
                    assert(s[i].0 == f && s[s.len() - 1].0 == f);
                }
            }
            lemma_count_in_absent(rest, f);
        } else {
            lemma_count_in_nonneg(rest, f);
        }
    }
}

/// Gather the node's features into the map: all of them when they are within
/// the cap, otherwise a uniform random choice of `cap` of them without
/// replacement.
///
/// When no down-sampling happens the contract is exact: the map gains the
/// node's feature list, occurrence for occurrence.  When the cap forces a
/// random choice, the contract says which keys may appear and that
/// untouched features keep their counts.
pub fn collect_embeddings_from_node(
    node: usize,
    feature_store: &FeatureStore,
    feat_map: &mut FeatureMap,
    max_features: Option<usize>,
    rng: &mut rand_xorshift::XorShiftRng,
)
    requires
        feature_store.wf(),
        node < feature_store.num_nodes(),
        old(feat_map).wf(),
        old(feat_map).keys_below(feature_store.spec_len()),
    ensures
        final(feat_map).wf(),
        final(feat_map).keys_below(feature_store.spec_len()),
        // no down-sampling: exact multiset addition of the feature list
        (max_features is None || feature_store.features@[node as int]@.len()
            <= max_features.unwrap()) ==> {
            &&& forall|g: usize|
                old(feat_map).count_of(g) + feature_store.features@[node as int]@.to_multiset().count(
                    g,
                ) <= u64::MAX ==> final(feat_map).count_of(g) == old(feat_map).count_of(g)
                    + feature_store.features@[node as int]@.to_multiset().count(g)
            &&& forall|g: usize|
                (final(feat_map).count_of(g) > 0) == (old(feat_map).count_of(g) > 0
                    || feature_store.features@[node as int]@.to_multiset().count(g) > 0)
            &&& final(feat_map).entries@ == entries_after_adds(
                old(feat_map).entries@,
                feature_store.features@[node as int]@,
            )
        },
        // in every case: keys can only come from the node's feature list,
        // existing keys stay, and features of other nodes keep their counts
        forall|g: usize|
            final(feat_map).count_of(g) > 0 ==> old(feat_map).count_of(g) > 0
                || feature_store.features@[node as int]@.to_multiset().count(g) > 0,
        forall|g: usize|
            old(feat_map).count_of(g) > 0 ==> final(feat_map).count_of(g) > 0,
        forall|g: usize|
            feature_store.features@[node as int]@.to_multiset().count(g) == 0 ==> final(feat_map).count_of(g) == old(feat_map).count_of(g),
        // a feature's count grows by at most its occurrences in the node's
        // feature list, with or without a cap
        forall|g: usize|
            final(feat_map).count_of(g) <= old(feat_map).count_of(g) + feature_store.features@[
                node as int
            ]@.to_multiset().count(g),
        // how much was gathered: the capped count under a binding cap, the
        // whole feature list otherwise
        final(feat_map).map_total() >= old(feat_map).map_total(),
        (max_features is Some && max_features.unwrap() < feature_store.features@[node as int]@.len()
            && old(feat_map).map_total() + max_features.unwrap() <= u64::MAX) ==> final(feat_map).map_total() == old(feat_map).map_total() + max_features.unwrap(),
        (!(max_features is Some && max_features.unwrap() < feature_store.features@[
            node as int
        ]@.len()) && old(feat_map).map_total() + feature_store.features@[node as int]@.len()
            <= u64::MAX) ==> final(feat_map).map_total() == old(feat_map).map_total()
            + feature_store.features@[node as int]@.len(),
{
    let feats = feature_store.get_features(node);
    let downsample = match max_features {
        Some(cap) => cap < feats.len(),
        None => false,
    };
    if downsample {
        let cap = match max_features {
            Some(c) => c,
            None => 0,
        };
        let picked = rng_choose(rng, feats, cap);
        proof {
            broadcast use vstd::seq_lib::group_to_multiset_ensures;

            assert forall|k: int| 0 <= k < picked@.len() implies (
            #[trigger] picked@[k]) < feature_store.spec_len() by {
                assert(picked@.to_multiset().count(picked@[k]) > 0);
                assert(feats@.to_multiset().count(picked@[k]) > 0);
                assert(feats@.contains(picked@[k]));
                let i = choose|i: int|
                    0 <= i < feats@.len() && #[trigger] feats@[i] == picked@[k];
                assert(feature_store.features@[node as int]@[i] < feature_store.spec_len());
            }
        }
        add_all(feat_map, &picked, Ghost(feature_store.spec_len()));
        proof {
            broadcast use vstd::seq_lib::group_to_multiset_ensures;

            assert forall|g: usize|
                feat_map.count_of(g) > 0 implies old(feat_map).count_of(g) > 0
                    || feats@.to_multiset().count(g) > 0 by {
                assert((feat_map.count_of(g) > 0) == (old(feat_map).count_of(g) > 0
                    || picked@.to_multiset().count(g) > 0));
                assert(picked@.to_multiset().count(g) <= feats@.to_multiset().count(g));
            }
            assert forall|g: usize|
                feats@.to_multiset().count(g) == 0 implies feat_map.count_of(g) == old(feat_map).count_of(g) by {
                assert(picked@.to_multiset().count(g) <= feats@.to_multiset().count(g));
                lemma_count_in_le_max(old(feat_map).entries@, g);
                lemma_count_in_nonneg(old(feat_map).entries@, g);
            }
        }
    } else {
        add_all(feat_map, feats, Ghost(feature_store.spec_len()));
        proof {
            broadcast use vstd::seq_lib::group_to_multiset_ensures;

            assert forall|g: usize|
                feats@.to_multiset().count(g) == 0 implies feat_map.count_of(g) == old(feat_map).count_of(g) by {
                lemma_count_in_le_max(old(feat_map).entries@, g);
                lemma_count_in_nonneg(old(feat_map).entries@, g);
            }
        }
    }
}

/// Total occurrences of feature `g` over the feature lists of the given
/// nodes, in list order (a node listed twice contributes twice).
pub open spec fn gathered_count(store: FeatureStore, nodes: Seq<usize>, g: usize) -> int
    decreases nodes.len(),
{
    if nodes.len() == 0 {
        0
    } else {
        gathered_count(store, nodes.drop_last(), g) + store.features@[
            nodes.last() as int
        ]@.to_multiset().count(g)
    }
}

/// Over a single-node list the gathered multiset is exactly that node's
/// feature multiset: pooling over multiple nodes restricts to the direct
/// single-node construction.
pub proof fn lemma_single_node_gather(store: FeatureStore, node: usize, g: usize)
    ensures
        gathered_count(store, seq![node], g) == store.features@[
            node as int
        ]@.to_multiset().count(g),
{
    let single: Seq<usize> = seq![node];
    assert(single.len() == 1);
    assert(single.drop_last() =~= Seq::<usize>::empty());
    assert(single.last() == node);
    assert(gathered_count(store, Seq::<usize>::empty(), g) == 0);
    assert(gathered_count(store, single, g) == gathered_count(store, single.drop_last(), g)
        + store.features@[node as int]@.to_multiset().count(g));
}

/// The canonical entry list gathered over the given nodes, in list order:
/// each node's whole feature list recorded occurrence by occurrence, so
/// entries stand in first-occurrence order with accumulated multiplicities.
pub open spec fn gathered_entries(store: FeatureStore, nodes: Seq<usize>) -> Seq<(usize, u64)>
    decreases nodes.len(),
{
    if nodes.len() == 0 {
        Seq::empty()
    } else {
        entries_after_adds(
            gathered_entries(store, nodes.drop_last()),
            store.features@[nodes.last() as int]@,
        )
    }
}

/// Over a single-node list the gathered entry list is exactly the direct
/// single-node construction's: multi-node pooling generalizes it, entry
/// order included.
pub proof fn lemma_single_node_entries(store: FeatureStore, node: usize)
    ensures
        gathered_entries(store, seq![node]) == entries_after_adds(
            Seq::<(usize, u64)>::empty(),
            store.features@[node as int]@,
        ),
{
    let single: Seq<usize> = seq![node];
    assert(single.len() == 1);
    assert(single.drop_last() =~= Seq::<usize>::empty());
    assert(single.last() == node);
    assert(gathered_entries(store, single.drop_last()) =~= Seq::<(usize, u64)>::empty());
}

/// Gathered occurrence counts are never negative.
pub proof fn lemma_gathered_nonneg(store: FeatureStore, nodes: Seq<usize>, g: usize)
    ensures
        gathered_count(store, nodes, g) >= 0,
    decreases nodes.len(),
{
    if nodes.len() > 0 {
        lemma_gathered_nonneg(store, nodes.drop_last(), g);
    }
}

/// A positive gathered count names some listed node carrying the feature.
pub proof fn lemma_gathered_pos_witness(store: FeatureStore, nodes: Seq<usize>, g: usize)
    requires
        gathered_count(store, nodes, g) > 0,
    ensures
        exists|j: int|
            0 <= j < nodes.len() && store.features@[(#[trigger] nodes[j]) as int]@.to_multiset().count(g) > 0,
    decreases nodes.len(),
{
    if nodes.len() > 0 {
        if store.features@[nodes.last() as int]@.to_multiset().count(g) > 0 {
            assert(store.features@[nodes[nodes.len() - 1] as int]@.to_multiset().count(g) > 0);
        } else {
            lemma_gathered_pos_witness(store, nodes.drop_last(), g);
            let j = choose|j: int|
                0 <= j < nodes.drop_last().len() && store.features@[
                    (#[trigger] nodes.drop_last()[j]) as int
                ]@.to_multiset().count(g) > 0;
            assert(nodes[j] == nodes.drop_last()[j]);
            assert(store.features@[nodes[j] as int]@.to_multiset().count(g) > 0);
        }
    }
}

/// A listed node carrying the feature makes the gathered count positive.
pub proof fn lemma_gathered_member_pos(store: FeatureStore, nodes: Seq<usize>, g: usize, j: int)
    requires
        0 <= j < nodes.len(),
        store.features@[nodes[j] as int]@.to_multiset().count(g) > 0,
    ensures
        gathered_count(store, nodes, g) > 0,
    decreases nodes.len(),
{
    lemma_gathered_nonneg(store, nodes.drop_last(), g);
    if j == nodes.len() - 1 {
    } else {
        assert(nodes.drop_last()[j] == nodes[j]);
        lemma_gathered_member_pos(store, nodes.drop_last(), g, j);
    }
}

/// The multiplicity-weighted row for one entry: the raw row for multiplicity
/// 1, the row scaled by the multiplicity otherwise.
pub open spec fn weighted_row(table: EmbeddingStore, e: (usize, u64)) -> Seq<u32> {
    if e.1 > 1 {
        scale_vec(int_bits(e.1), table.row_at(e.0 as int))
    } else {
        table.row_at(e.0 as int)
    }
}

/// Left-to-right sum of the weighted rows of all entries.
pub open spec fn pooled_sum(entries: Seq<(usize, u64)>, table: EmbeddingStore, d: nat) -> Seq<u32>
    decreases entries.len(),
{
    if entries.len() == 0 {
        zero_vec(d)
    } else {
        add_vecs(pooled_sum(entries.drop_last(), table, d), weighted_row(table, entries.last()))
    }
}

/// Total multiplicity of the entries, saturating at `u64::MAX`.
pub open spec fn total_count(entries: Seq<(usize, u64)>) -> u64
    decreases entries.len(),
{
    if entries.len() == 0 {
        0u64
    } else {
        if total_count(entries.drop_last()) + entries.last().1 <= u64::MAX {
            (total_count(entries.drop_last()) + entries.last().1) as u64
        } else {
            u64::MAX
        }
    }
}

/// The averaged pooling of the map: every coordinate of the weighted row sum
/// divided by the total multiplicity.
pub open spec fn averaged_pool(map: FeatureMap, table: EmbeddingStore, d: nat) -> Seq<u32> {
    div_vec(pooled_sum(map.entries@, table, d), int_bits(total_count(map.entries@)))
}

/// Averaged pooling: the multiplicity-weighted arithmetic mean of the mapped
/// features' current embeddings.
pub fn mean_embeddings(map: &FeatureMap, table: &EmbeddingStore) -> (r: Vec<u32>)
    requires
        map.wf(),
        table.wf(),
        map.keys_below(table.spec_len() as int),
    ensures
        r@ == averaged_pool(*map, *table, table.dims as nat),
        r@.len() == table.dims,
{
    let d = table.dims;
    let mut acc: Vec<u32> = vec_zero(d);
    let mut n: u64 = 0;
    let n_entries = map.entries.len();
    let mut i: usize = 0;
    while i < n_entries
        invariant
            map.wf(),
            table.wf(),
            map.keys_below(table.spec_len() as int),
            d == table.dims,
            n_entries == map.entries@.len(),
            i <= n_entries,
            acc@.len() == d,
            acc@ == pooled_sum(map.entries@.take(i as int), *table, d as nat),
            n == total_count(map.entries@.take(i as int)),
        decreases n_entries - i,
    {
        let (f, c) = map.entries[i];
        let row = table.get_embedding(f);
        let weighted: Vec<u32> = if c > 1 {
            vec_scale(f_from_int(c), row)
        } else {
            crate::vecmath::clone_row(row)
        };
        let new_acc = vec_add(&acc, &weighted);
        let new_n: u64 = if n <= u64::MAX - c {
            n + c
        } else {
            u64::MAX
        };
        proof {
            assert(map.entries@.take(i + 1).drop_last() =~= map.entries@.take(i as int));
            assert(map.entries@.take(i + 1).last() == map.entries@[i as int]);
            assert(weighted@ == weighted_row(*table, map.entries@[i as int]));
        }
        acc = new_acc;
        n = new_n;
        i += 1;
    }
    proof {
        assert(map.entries@.take(n_entries as int) =~= map.entries@);
    }
    vec_div_scalar(&acc, f_from_int(n))
}

/// Direct embedding: gather the node's own features (down-sampled to at most
/// `max_features`) and pool them by averaging.  The returned map records
/// exactly which features with which multiplicities entered the pool, and
/// the returned vector is their averaged pooling.
pub fn construct_node_embedding(
    node: usize,
    feature_store: &FeatureStore,
    feature_embeddings: &EmbeddingStore,
    max_features: Option<usize>,
    rng: &mut rand_xorshift::XorShiftRng,
) -> (out: (FeatureMap, Vec<u32>))
    requires
        feature_store.wf(),
        feature_store.spec_len() <= feature_embeddings.spec_len(),
        node < feature_store.num_nodes(),
        feature_embeddings.wf(),
    ensures
        out.0.wf(),
        out.0.keys_below(feature_store.spec_len()),
        // without a binding cap the map is exactly the node's feature
        // multiset; under one, exactly the cap's worth of occurrences enter
        (max_features is None || feature_store.features@[node as int]@.len()
            <= max_features.unwrap()) ==> forall|g: usize|
            #![trigger out.0.count_of(g)]
            out.0.count_of(g) == feature_store.features@[node as int]@.to_multiset().count(g),
        (max_features is None || feature_store.features@[node as int]@.len()
            <= max_features.unwrap()) ==> out.0.entries@ == entries_after_adds(
            Seq::<(usize, u64)>::empty(),
            feature_store.features@[node as int]@,
        ),
        (max_features is Some && max_features.unwrap() < feature_store.features@[
            node as int
        ]@.len()) ==> out.0.map_total() == max_features.unwrap(),
        // only the node's own features appear
        forall|g: usize|
            out.0.count_of(g) > 0 ==> feature_store.features@[node as int]@.to_multiset().count(
                g,
            ) > 0,
        out.1@ == averaged_pool(out.0, *feature_embeddings, feature_embeddings.dims as nat),
        out.1@.len() == feature_embeddings.dims,
{
    let mut feat_map = FeatureMap::new();
    let ghost pre = feat_map;
    let n_feats = feature_store.get_features(node).len();
    collect_embeddings_from_node(node, feature_store, &mut feat_map, max_features, rng);
    proof {
        broadcast use vstd::seq_lib::group_to_multiset_ensures;
        broadcast use vstd::multiset::axiom_count_le_len;

        let feats = feature_store.features@[node as int]@;
        assert(feats.len() == n_feats);
        assert(pre.entries@ =~= Seq::<(usize, u64)>::empty());
        if max_features is None || feats.len() <= max_features.unwrap() {
            assert forall|g: usize|
                #![trigger feat_map.count_of(g)]
                feat_map.count_of(g) == feats.to_multiset().count(g) by {
                assert(pre.count_of(g) == 0);
                assert(feats.to_multiset().count(g) <= feats.to_multiset().len());
                assert(feats.to_multiset().len() == feats.len());
                assert(pre.count_of(g) + feats.to_multiset().count(g) <= u64::MAX);
            }
            assert(feat_map.entries@ == entries_after_adds(pre.entries@, feats));
            assert(feat_map.entries@ == entries_after_adds(
                Seq::<(usize, u64)>::empty(),
                feats,
            ));
        }
    }
    let mean = mean_embeddings(&feat_map, feature_embeddings);
    (feat_map, mean)
}

/// Gather the features of every node of `nodes` into one multiset
/// (multiplicity accumulates across nodes) and pool by averaging.
pub fn construct_from_multiple_nodes(
    nodes: &Vec<usize>,
    feature_store: &FeatureStore,
    feature_embeddings: &EmbeddingStore,
    max_features: Option<usize>,
    rng: &mut rand_xorshift::XorShiftRng,
) -> (out: (FeatureMap, Vec<u32>))
    requires
        feature_store.wf(),
        feature_store.spec_len() <= feature_embeddings.spec_len(),
        forall|k: int| 0 <= k < nodes@.len() ==> (#[trigger] nodes@[k]) < feature_store.num_nodes(),
        feature_embeddings.wf(),
    ensures
        out.0.wf(),
        out.0.keys_below(feature_store.spec_len()),
        // without a feature cap the map is exactly the union multiset of the
        // nodes' features, multiplicity accumulating across node occurrences
        max_features is None ==> forall|g: usize|
            #![trigger out.0.count_of(g)]
            gathered_count(*feature_store, nodes@, g) <= u64::MAX ==> out.0.count_of(g)
                == gathered_count(*feature_store, nodes@, g),
        max_features is None ==> out.0.entries@ == gathered_entries(*feature_store, nodes@),
        // only features of the listed nodes appear
        forall|g: usize|
            out.0.count_of(g) > 0 ==> gathered_count(*feature_store, nodes@, g) > 0,
        out.1@ == averaged_pool(out.0, *feature_embeddings, feature_embeddings.dims as nat),
        out.1@.len() == feature_embeddings.dims,
{
    let feat_map = gather_from_nodes(nodes, feature_store, max_features, rng);
    let mean = mean_embeddings(&feat_map, feature_embeddings);
    (feat_map, mean)
}

/// Gather the features of every node of `nodes` into one multiset,
/// multiplicity accumulating across node occurrences (each node's list
/// down-sampled to at most `max_features`).
pub fn gather_from_nodes(
    nodes: &Vec<usize>,
    feature_store: &FeatureStore,
    max_features: Option<usize>,
    rng: &mut rand_xorshift::XorShiftRng,
) -> (m: FeatureMap)
    requires
        feature_store.wf(),
        forall|k: int| 0 <= k < nodes@.len() ==> (#[trigger] nodes@[k]) < feature_store.num_nodes(),
    ensures
        m.wf(),
        m.keys_below(feature_store.spec_len()),
        max_features is None ==> forall|g: usize|
            #![trigger m.count_of(g)]
            gathered_count(*feature_store, nodes@, g) <= u64::MAX ==> m.count_of(g)
                == gathered_count(*feature_store, nodes@, g),
        max_features is None ==> m.entries@ == gathered_entries(*feature_store, nodes@),
        forall|g: usize|
            m.count_of(g) > 0 ==> gathered_count(*feature_store, nodes@, g) > 0,
{
    let mut feat_map = FeatureMap::new();
    let n = nodes.len();
    let mut k: usize = 0;
    proof {
        assert(nodes@.take(0) =~= Seq::<usize>::empty());
        assert(feat_map.entries@ =~= gathered_entries(*feature_store, nodes@.take(0)));
    }
    while k < n
        invariant
            feature_store.wf(),
            n == nodes@.len(),
            forall|j: int| 0 <= j < n ==> (#[trigger] nodes@[j]) < feature_store.num_nodes(),
            k <= n,
            feat_map.wf(),
            feat_map.keys_below(feature_store.spec_len()),
            max_features is None ==> forall|g: usize|
                #![trigger feat_map.count_of(g)]
                gathered_count(*feature_store, nodes@.take(k as int), g) <= u64::MAX
                    ==> feat_map.count_of(g) == gathered_count(
                    *feature_store,
                    nodes@.take(k as int),
                    g,
                ),
            max_features is None ==> feat_map.entries@ == gathered_entries(
                *feature_store,
                nodes@.take(k as int),
            ),
            forall|g: usize|
                feat_map.count_of(g) > 0 ==> gathered_count(
                    *feature_store,
                    nodes@.take(k as int),
                    g,
                ) > 0,
        decreases n - k,
    {
        let ghost pre = feat_map;
        let n_feats = feature_store.get_features(nodes[k]).len();
        collect_embeddings_from_node(nodes[k], feature_store, &mut feat_map, max_features, rng);
        let ghost kk = k as int;
        k += 1;
        proof {
            broadcast use vstd::seq_lib::group_to_multiset_ensures;
            broadcast use vstd::multiset::axiom_count_le_len;

            assert(nodes@.take(kk + 1).drop_last() =~= nodes@.take(kk));
            assert(nodes@.take(kk + 1).last() == nodes@[kk]);
            let feats = feature_store.features@[nodes@[kk] as int]@;
            assert(feats.len() == n_feats);
            if max_features is None {
                assert(feat_map.entries@ == entries_after_adds(pre.entries@, feats));
                assert(feat_map.entries@ == gathered_entries(
                    *feature_store,
                    nodes@.take(kk + 1),
                ));
            }
            if max_features is None {
                assert forall|g: usize|
                    #![trigger feat_map.count_of(g)]
                    gathered_count(*feature_store, nodes@.take(kk + 1), g) <= u64::MAX
                        implies feat_map.count_of(g) == gathered_count(
                        *feature_store,
                        nodes@.take(kk + 1),
                        g,
                    ) by {
                    lemma_gathered_nonneg(*feature_store, nodes@.take(kk), g);
                    assert(feats.to_multiset().count(g) <= feats.to_multiset().len());
                    assert(gathered_count(*feature_store, nodes@.take(kk + 1), g)
                        == gathered_count(*feature_store, nodes@.take(kk), g)
                        + feats.to_multiset().count(g));
                    assert(gathered_count(*feature_store, nodes@.take(kk), g) <= u64::MAX);
                    assert(pre.count_of(g) == gathered_count(*feature_store, nodes@.take(kk), g));
                    assert(pre.count_of(g) + feats.to_multiset().count(g) <= u64::MAX);
                }
            }
            assert forall|g: usize|
                feat_map.count_of(g) > 0 implies gathered_count(
                *feature_store,
                nodes@.take(kk + 1),
                g,
            ) > 0 by {
                lemma_gathered_nonneg(*feature_store, nodes@.take(kk), g);
                if pre.count_of(g) > 0 {
                    assert(gathered_count(*feature_store, nodes@.take(kk), g) > 0);
                }
            }
        }
    }
    proof {
        assert(nodes@.take(n as int) =~= nodes@);
    }
    feat_map
}

/// Reconstruction: estimate the node's embedding from its outgoing
/// neighbors' features, down-sampling to at most `max_nodes` neighbors, then
/// pooling as `construct_from_multiple_nodes` does.
pub fn reconstruct_node_embedding(
    graph: &Graph,
    node: usize,
    feature_store: &FeatureStore,
    feature_embeddings: &EmbeddingStore,
    max_nodes: Option<usize>,
    max_features: Option<usize>,
    rng: &mut rand_xorshift::XorShiftRng,
) -> (out: (FeatureMap, Vec<u32>))
    requires
        graph.wf(),
        feature_store.wf(),
        feature_store.spec_len() <= feature_embeddings.spec_len(),
        node < graph.spec_len(),
        graph.spec_len() <= feature_store.num_nodes(),
        feature_embeddings.wf(),
    ensures
        out.0.wf(),
        out.0.keys_below(feature_store.spec_len()),
        // with every neighbor in play and no feature cap, the map is exactly
        // the neighbors' union feature multiset
        (max_features is None && (max_nodes is None || graph.adjacency@[node as int]@.len()
            <= max_nodes.unwrap())) ==> forall|g: usize|
            #![trigger out.0.count_of(g)]
            gathered_count(*feature_store, graph.adjacency@[node as int]@, g) <= u64::MAX
                ==> out.0.count_of(g) == gathered_count(
                *feature_store,
                graph.adjacency@[node as int]@,
                g,
            ),
        (max_features is None && (max_nodes is None || graph.adjacency@[node as int]@.len()
            <= max_nodes.unwrap())) ==> out.0.entries@ == gathered_entries(
            *feature_store,
            graph.adjacency@[node as int]@,
        ),
        // in every case, a gathered feature occurs among the node's
        // out-neighbors' features
        forall|g: usize|
            out.0.count_of(g) > 0 ==> gathered_count(
                *feature_store,
                graph.adjacency@[node as int]@,
                g,
            ) > 0,
        out.1@ == averaged_pool(out.0, *feature_embeddings, feature_embeddings.dims as nat),
        out.1@.len() == feature_embeddings.dims,
{
    let edges = graph.get_edges(node);
    let use_all = match max_nodes {
        Some(cap) => edges.len() <= cap,
        None => true,
    };
    if use_all {
        construct_from_multiple_nodes(edges, feature_store, feature_embeddings, max_features, rng)
    } else {
        let cap = match max_nodes {
            Some(cap) => cap,
            None => edges.len(),
        };
        let picked = rng_choose(rng, edges, cap);
        proof {
            broadcast use vstd::seq_lib::group_to_multiset_ensures;

            assert forall|k: int| 0 <= k < picked@.len() implies (
            #[trigger] picked@[k]) < feature_store.num_nodes() by {
                assert(picked@.to_multiset().count(picked@[k]) > 0);
                assert(edges@.to_multiset().count(picked@[k]) > 0);
                assert(edges@.contains(picked@[k]));
                let i = choose|i: int| 0 <= i < edges@.len() && #[trigger] edges@[i] == picked@[k];
                assert(graph.adjacency@[node as int]@[i] < graph.spec_len());
            }
        }
        let out = construct_from_multiple_nodes(
            &picked,
            feature_store,
            feature_embeddings,
            max_features,
            rng,
        );
        proof {
            broadcast use vstd::seq_lib::group_to_multiset_ensures;

            assert forall|g: usize|
                out.0.count_of(g) > 0 implies gathered_count(
                *feature_store,
                graph.adjacency@[node as int]@,
                g,
            ) > 0 by {
                assert(gathered_count(*feature_store, picked@, g) > 0);
                lemma_gathered_pos_witness(*feature_store, picked@, g);
                let j = choose|j: int|
                    0 <= j < picked@.len() && feature_store.features@[
                        (#[trigger] picked@[j]) as int
                    ]@.to_multiset().count(g) > 0;
                assert(picked@.to_multiset().count(picked@[j]) > 0);
                assert(edges@.to_multiset().count(picked@[j]) > 0);
                assert(edges@.contains(picked@[j]));
                let i = choose|i: int| 0 <= i < edges@.len() && #[trigger] edges@[i] == picked@[j];
                lemma_gathered_member_pos(*feature_store, edges@, g, i);
            }
        }
        out
    }
}

/// The averaged pooling strategy, with optional feature and neighbor caps.
pub struct AveragedFeatureModel {
    /// At most this many features per node enter a pool.
    pub max_features: Option<usize>,
    /// At most this many neighbors enter a reconstruction.
    pub max_neighbor_nodes: Option<usize>,
}

impl AveragedFeatureModel {
    /// A model with the given caps.
    pub fn new(max_features: Option<usize>, max_neighbor_nodes: Option<usize>) -> (r:
        AveragedFeatureModel)
        ensures
            r.max_features == max_features,
            r.max_neighbor_nodes == max_neighbor_nodes,
    {
        AveragedFeatureModel { max_features, max_neighbor_nodes }
    }

    /// Direct embedding of the node under this model's caps.
    pub fn construct_node_embedding(
        &self,
        node: usize,
        feature_store: &FeatureStore,
        feature_embeddings: &EmbeddingStore,
        rng: &mut rand_xorshift::XorShiftRng,
    ) -> (out: (FeatureMap, Vec<u32>))
        requires
            feature_store.wf(),
            feature_store.spec_len() <= feature_embeddings.spec_len(),
            node < feature_store.num_nodes(),
            feature_embeddings.wf(),
        ensures
            out.0.wf(),
            out.0.keys_below(feature_store.spec_len()),
            (self.max_features is None || feature_store.features@[node as int]@.len()
                <= self.max_features.unwrap()) ==> forall|g: usize|
                #![trigger out.0.count_of(g)]
                out.0.count_of(g) == feature_store.features@[node as int]@.to_multiset().count(
                    g,
                ),
            (self.max_features is None || feature_store.features@[node as int]@.len()
                <= self.max_features.unwrap()) ==> out.0.entries@ == entries_after_adds(
                Seq::<(usize, u64)>::empty(),
                feature_store.features@[node as int]@,
            ),
            (self.max_features is Some && self.max_features.unwrap() < feature_store.features@[
                node as int
            ]@.len()) ==> out.0.map_total() == self.max_features.unwrap(),
            out.1@ == averaged_pool(out.0, *feature_embeddings, feature_embeddings.dims as nat),
            out.1@.len() == feature_embeddings.dims,
    {
        construct_node_embedding(node, feature_store, feature_embeddings, self.max_features, rng)
    }

    /// Reconstructed embedding of the node from its neighbors.
    pub fn reconstruct_node_embedding(
        &self,
        graph: &Graph,
        node: usize,
        feature_store: &FeatureStore,
        feature_embeddings: &EmbeddingStore,
        rng: &mut rand_xorshift::XorShiftRng,
    ) -> (out: (FeatureMap, Vec<u32>))
        requires
            graph.wf(),
            feature_store.wf(),
            feature_store.spec_len() <= feature_embeddings.spec_len(),
            node < graph.spec_len(),
            graph.spec_len() <= feature_store.num_nodes(),
            feature_embeddings.wf(),
        ensures
            out.0.wf(),
            out.0.keys_below(feature_store.spec_len()),
            (self.max_features is None && (self.max_neighbor_nodes is None || graph.adjacency@[
                node as int
            ]@.len() <= self.max_neighbor_nodes.unwrap())) ==> forall|g: usize|
                #![trigger out.0.count_of(g)]
                gathered_count(*feature_store, graph.adjacency@[node as int]@, g) <= u64::MAX
                    ==> out.0.count_of(g) == gathered_count(
                    *feature_store,
                    graph.adjacency@[node as int]@,
                    g,
                ),
            (self.max_features is None && (self.max_neighbor_nodes is None || graph.adjacency@[
                node as int
            ]@.len() <= self.max_neighbor_nodes.unwrap())) ==> out.0.entries@ == gathered_entries(
                *feature_store,
                graph.adjacency@[node as int]@,
            ),
            forall|g: usize|
                out.0.count_of(g) > 0 ==> gathered_count(
                    *feature_store,
                    graph.adjacency@[node as int]@,
                    g,
                ) > 0,
            out.1@ == averaged_pool(out.0, *feature_embeddings, feature_embeddings.dims as nat),
            out.1@.len() == feature_embeddings.dims,
    {
        reconstruct_node_embedding(
            graph,
            node,
            feature_store,
            feature_embeddings,
            self.max_neighbor_nodes,
            self.max_features,
            rng,
        )
    }

    /// Pool the features of an arbitrary node sequence.
    pub fn construct_from_multiple_nodes(
        &self,
        nodes: &Vec<usize>,
        feature_store: &FeatureStore,
        feature_embeddings: &EmbeddingStore,
        rng: &mut rand_xorshift::XorShiftRng,
    ) -> (out: (FeatureMap, Vec<u32>))
        requires
            feature_store.wf(),
            feature_store.spec_len() <= feature_embeddings.spec_len(),
            forall|k: int|
                0 <= k < nodes@.len() ==> (#[trigger] nodes@[k]) < feature_store.num_nodes(),
            feature_embeddings.wf(),
        ensures
            out.0.wf(),
            out.0.keys_below(feature_store.spec_len()),
            self.max_features is None ==> forall|g: usize|
                #![trigger out.0.count_of(g)]
                gathered_count(*feature_store, nodes@, g) <= u64::MAX ==> out.0.count_of(g)
                    == gathered_count(*feature_store, nodes@, g),
            self.max_features is None ==> out.0.entries@ == gathered_entries(
                *feature_store,
                nodes@,
            ),
            forall|g: usize|
                out.0.count_of(g) > 0 ==> gathered_count(*feature_store, nodes@, g) > 0,
            out.1@ == averaged_pool(out.0, *feature_embeddings, feature_embeddings.dims as nat),
            out.1@.len() == feature_embeddings.dims,
    {
        construct_from_multiple_nodes(
            nodes,
            feature_store,
            feature_embeddings,
            self.max_features,
            rng,
        )
    }
}

} // verus!
