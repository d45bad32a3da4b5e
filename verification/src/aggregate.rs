//! Per-batch gradient aggregation: merge the per-node gradient maps into one
//! map, summing contributions elementwise over shared feature keys.

use vstd::prelude::*;

use crate::loss::{lemma_lookup_absent, lookup_grad, GradMap};
use crate::vecmath::{add_vecs, vec_add, vec_zero, zero_vec};

verus! {

/// A found gradient has the dimension that every entry has.
pub proof fn lemma_lookup_dims(s: Seq<(usize, Vec<u32>)>, f: usize, d: int)
    requires
        forall|i: int| 0 <= i < s.len() ==> (#[trigger] s[i]).1@.len() == d,
        lookup_grad(s, f) is Some,
    ensures
        lookup_grad(s, f).unwrap().len() == d,
    decreases s.len(),
{
    if s.len() > 0 {
        if s.last().0 == f {
            assert(s[s.len() - 1].1@.len() == d);
        } else {
            let rest = s.drop_last();
            assert forall|i: int| 0 <= i < rest.len() implies (#[trigger] rest[i]).1@.len()
                == d by {
                assert(s[i] == rest[i]);
            }
            lemma_lookup_dims(rest, f, d);
        }
    }
}

/// One feature's merged gradient: the accumulator value (zero where the
/// feature is new) plus the node's contribution; the accumulator value alone
/// where this node contributes nothing.
pub open spec fn merged_entry(
    acc: Option<Seq<u32>>,
    contribution: Option<Seq<u32>>,
    d: nat,
) -> Option<Seq<u32>> {
    match contribution {
        Option::None => acc,
        Option::Some(g) => Option::Some(
            add_vecs(
                match acc {
                    Option::None => zero_vec(d),
                    Option::Some(a) => a,
                },
                g,
            ),
        ),
    }
}

/// Fold one node's gradient map into the accumulator: every contribution of
/// the node is added, elementwise, onto the feature's running sum (seeded
/// with zero for a feature not seen before); features the node does not
/// touch keep their running sums.
pub fn merge_grads(acc: &mut GradMap, node_grads: &GradMap, d: usize)
    requires
        old(acc).wf(),
        node_grads.wf(),
        old(acc).dims_ok(d as int),
        node_grads.dims_ok(d as int),
    ensures
        final(acc).wf(),
        final(acc).dims_ok(d as int),
        forall|f: usize|
            final(acc).spec_get(f) == merged_entry(
                old(acc).spec_get(f),
                node_grads.spec_get(f),
                d as nat,
            ),
        forall|n: int|
            old(acc).keys_below(n) && node_grads.keys_below(n) ==> final(acc).keys_below(n),
{
    let n_entries = node_grads.entries.len();
    let mut k: usize = 0;
    while k < n_entries
        invariant
            acc.wf(),
            node_grads.wf(),
            acc.dims_ok(d as int),
            node_grads.dims_ok(d as int),
            n_entries == node_grads.entries@.len(),
            k <= n_entries,
            forall|f: usize|
                acc.spec_get(f) == merged_entry(
                    old(acc).spec_get(f),
                    lookup_grad(node_grads.entries@.take(k as int), f),
                    d as nat,
                ),
            forall|n: int|
                old(acc).keys_below(n) && node_grads.keys_below(n) ==> acc.keys_below(n),
        decreases n_entries - k,
    {
        let (f, g) = &node_grads.entries[k];
        proof {
            assert forall|j: int| 0 <= j < k implies (
            #[trigger] node_grads.entries@.take(k as int)[j]).0 != node_grads.entries@[
                k as int
            ].0 by {
                assert(node_grads.entries@.take(k as int)[j] == node_grads.entries@[j]);
            }
            lemma_lookup_absent(node_grads.entries@.take(k as int), node_grads.entries@[k as int].0);
        }
        proof {
            assert(node_grads.entries@[k as int].1@.len() == d);
            if acc.spec_get(node_grads.entries@[k as int].0) is Some {
                lemma_lookup_dims(acc.entries@, node_grads.entries@[k as int].0, d as int);
            }
        }
        let base: Vec<u32> = match acc.get(*f) {
            Some(existing) => crate::vecmath::clone_row(existing),
            None => vec_zero(d),
        };
        let summed = vec_add(&base, g);
        let ghost pre = *acc;
        let present = acc.contains_key(*f);
        if present {
            acc.update_value(*f, summed);
        } else {
            acc.insert(*f, summed);
        }
        proof {
            assert(summed@.len() == d);
            assert forall|i: int| 0 <= i < acc.entries@.len() implies (
            #[trigger] acc.entries@[i]).1@.len() == d by {
                if i < pre.entries@.len() {
                    if acc.entries@[i] == pre.entries@[i] {
                        assert(pre.entries@[i].1@.len() == d);
                    }
                } else {
                }
            }
            assert(node_grads.entries@.take(k + 1) =~= node_grads.entries@.take(k as int).push(
                node_grads.entries@[k as int],
            ));
            assert(node_grads.entries@.take(k + 1).drop_last() =~= node_grads.entries@.take(
                k as int,
            ));
            assert(node_grads.entries@.take(k + 1).last() == node_grads.entries@[k as int]);
            assert forall|f2: usize|
                acc.spec_get(f2) == merged_entry(
                    old(acc).spec_get(f2),
                    lookup_grad(node_grads.entries@.take(k + 1), f2),
                    d as nat,
                ) by {
                if f2 == node_grads.entries@[k as int].0 {
                    assert(lookup_grad(node_grads.entries@.take(k + 1), f2) == Some(
                        node_grads.entries@[k as int].1@,
                    ));
                } else {
                    assert(lookup_grad(node_grads.entries@.take(k + 1), f2) == lookup_grad(
                        node_grads.entries@.take(k as int),
                        f2,
                    ));
                    assert(acc.spec_get(f2) == pre.spec_get(f2));
                }
            }
        }
        k += 1;
    }
    proof {
        assert(node_grads.entries@.take(n_entries as int) =~= node_grads.entries@);
    }
}

} // verus!
