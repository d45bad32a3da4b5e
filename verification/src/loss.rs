//! Margin ranking loss and gradient extraction.
//!
//! The loss compares the reconstructed embedding against the direct one and a
//! negative sample: `max(0, γ + dist(recon, direct) − dist(recon, neg))`,
//! with Euclidean distance.  Gradients flow back to every feature that took
//! part in a construction; a feature taking part in more than one
//! construction is read exactly once (first occurrence wins), and a gradient
//! with any non-finite coordinate is dropped entirely.

use vstd::prelude::*;

use crate::fp::{
    add_bits, div_bits, f_add, f_div, f_from_int, f_hinge, f_mul, f_sqrt, f_sub, hinge_bits,
    int_bits, mul_bits, sqrt_bits, sub_bits,
};
use crate::model::FeatureMap;
use crate::vecmath::{all_finite_seq, scale_vec, vec_all_finite, vec_scale, vsum};

verus! {

/// Coordinate-wise squared differences of two equal-length vectors.
pub open spec fn sq_diff_seq(a: Seq<u32>, b: Seq<u32>) -> Seq<u32> {
    Seq::new(a.len(), |i: int| mul_bits(sub_bits(a[i], b[i]), sub_bits(a[i], b[i])))
}

/// The Euclidean distance of two vectors: square root of the left-to-right
/// sum of squared coordinate differences.
pub open spec fn euclid_bits(a: Seq<u32>, b: Seq<u32>) -> u32 {
    sqrt_bits(vsum(sq_diff_seq(a, b)))
}

/// The margin ranking loss over reconstructed (`thv`), direct (`hv`) and
/// negative (`hu`) embeddings with margin `gamma`.
pub open spec fn margin_loss_bits(thv: Seq<u32>, hv: Seq<u32>, hu: Seq<u32>, gamma: u32) -> u32 {
    hinge_bits(sub_bits(add_bits(gamma, euclid_bits(thv, hv)), euclid_bits(thv, hu)))
}

/// Euclidean distance between two vectors of equal dimension.
pub fn euclidean_distance(a: &Vec<u32>, b: &Vec<u32>) -> (r: u32)
    requires
        a@.len() == b@.len(),
    ensures
        r == euclid_bits(a@, b@),
{
    let mut acc: u32 = 0;
    let mut i: usize = 0;
    proof {
        assert(sq_diff_seq(a@, b@).take(0) =~= Seq::<u32>::empty());
    }
    while i < a.len()
        invariant
            a@.len() == b@.len(),
            i <= a@.len(),
            acc == vsum(sq_diff_seq(a@, b@).take(i as int)),
        decreases a@.len() - i,
    {
        let d = f_sub(a[i], b[i]);
        acc = f_add(acc, f_mul(d, d));
        proof {
            assert(sq_diff_seq(a@, b@).take(i + 1).drop_last() =~= sq_diff_seq(a@, b@).take(
                i as int,
            ));
            assert(sq_diff_seq(a@, b@).take(i + 1).last() == sq_diff_seq(a@, b@)[i as int]);
        }
        i += 1;
    }
    proof {
        assert(sq_diff_seq(a@, b@).take(a@.len() as int) =~= sq_diff_seq(a@, b@));
    }
    f_sqrt(acc)
}

/// The margin ranking loss `max(0, γ + dist(thv, hv) − dist(thv, hu))`.
pub fn margin_loss(thv: &Vec<u32>, hv: &Vec<u32>, hu: &Vec<u32>, gamma: u32) -> (r: u32)
    requires
        thv@.len() == hv@.len(),
        thv@.len() == hu@.len(),
    ensures
        r == margin_loss_bits(thv@, hv@, hu@, gamma),
{
    let d1 = euclidean_distance(thv, hv);
    let d2 = euclidean_distance(thv, hu);
    f_hinge(f_sub(f_add(gamma, d1), d2))
}

/// Per-feature gradient vectors, keyed by feature id; keys are distinct.
pub struct GradMap {
    /// (feature id, gradient) entries with distinct keys.
    pub entries: Vec<(usize, Vec<u32>)>,
}

/// The gradient stored for `f`, scanning entries from the most recent.
pub open spec fn lookup_grad(s: Seq<(usize, Vec<u32>)>, f: usize) -> Option<Seq<u32>>
    decreases s.len(),
{
    if s.len() == 0 {
        None
    } else if s.last().0 == f {
        Some(s.last().1@)
    } else {
        lookup_grad(s.drop_last(), f)
    }
}

/// A prefix scan that found the key reads that entry, provided keys are
/// distinct.
pub proof fn lemma_lookup_present(s: Seq<(usize, Vec<u32>)>, i: int)
    requires
        forall|p: int, q: int|
            0 <= p < q < s.len() ==> (#[trigger] s[p]).0 != (#[trigger] s[q]).0,
        0 <= i < s.len(),
    ensures
        lookup_grad(s, s[i].0) == Some(s[i].1@),
    decreases s.len(),
{
    if i == s.len() - 1 {
    } else {
        assert(s.last().0 != s[i].0);
        let rest = s.drop_last();
        assert forall|p: int, q: int|
            0 <= p < q < rest.len() implies (#[trigger] rest[p]).0 != (#[trigger] rest[q]).0 by {
            assert(s[p] == rest[p] && s[q] == rest[q]);
        }
        lemma_lookup_present(rest, i);
    }
}

/// Replacing entry `i` by one with the same key rebinds exactly that key,
/// provided keys are distinct.
pub proof fn lemma_lookup_update(s: Seq<(usize, Vec<u32>)>, i: int, e: (usize, Vec<u32>), g: usize)
    requires
        forall|p: int, q: int|
            0 <= p < q < s.len() ==> (#[trigger] s[p]).0 != (#[trigger] s[q]).0,
        0 <= i < s.len(),
        s[i].0 == e.0,
    ensures
        lookup_grad(s.update(i, e), g) == if g == e.0 {
            Some(e.1@)
        } else {
            lookup_grad(s, g)
        },
    decreases s.len(),
{
    let t = s.update(i, e);
    if i == s.len() - 1 {
        assert(t.drop_last() =~= s.drop_last());
        assert(t.last() == e);
        if g == e.0 {
        } else {
        }
    } else {
        assert(t.drop_last() =~= s.drop_last().update(i, e));
        assert(t.last() == s.last());
        let rest = s.drop_last();
        assert forall|p: int, q: int|
            0 <= p < q < rest.len() implies (#[trigger] rest[p]).0 != (#[trigger] rest[q]).0 by {
            assert(s[p] == rest[p] && s[q] == rest[q]);
        }
        assert(rest[i] == s[i]);
        lemma_lookup_update(rest, i, e, g);
        assert(s.last().0 != e.0);
    }
}

/// A key no entry carries is not found.
pub proof fn lemma_lookup_absent(s: Seq<(usize, Vec<u32>)>, f: usize)
    requires
        forall|i: int| 0 <= i < s.len() ==> (#[trigger] s[i]).0 != f,
    ensures
        lookup_grad(s, f) is None,
    decreases s.len(),
{
    if s.len() > 0 {
        let rest = s.drop_last();
        assert forall|i: int| 0 <= i < rest.len() implies (#[trigger] rest[i]).0 != f by {
            assert(s[i] == rest[i]);
        }
        lemma_lookup_absent(rest, f);
    }
}

impl GradMap {
    /// Well-formed: keys distinct.
    pub open spec fn wf(self) -> bool {
        forall|i: int, j: int|
            0 <= i < j < self.entries@.len() ==> (#[trigger] self.entries@[i]).0 != (
            #[trigger] self.entries@[j]).0
    }

    /// The gradient stored for `f`, if any.
    pub open spec fn spec_get(self, f: usize) -> Option<Seq<u32>> {
        lookup_grad(self.entries@, f)
    }

    /// Every stored gradient has dimension `d`.
    pub open spec fn dims_ok(self, d: int) -> bool {
        forall|i: int| 0 <= i < self.entries@.len() ==> (#[trigger] self.entries@[i]).1@.len() == d
    }

    /// Every key is below `n`.
    pub open spec fn keys_below(self, n: int) -> bool {
        forall|i: int| 0 <= i < self.entries@.len() ==> (#[trigger] self.entries@[i]).0 < n
    }

    /// Every stored gradient is coordinate-wise finite.
    pub open spec fn all_finite(self) -> bool {
        forall|i: int|
            0 <= i < self.entries@.len() ==> all_finite_seq((#[trigger] self.entries@[i]).1@)
    }

    /// An empty gradient map.
    pub fn new() -> (r: GradMap)
        ensures
            r.wf(),
            r.entries@.len() == 0,
            forall|f: usize| r.spec_get(f) is None,
            r.dims_ok(0) && r.all_finite(),
            forall|n: int| r.keys_below(n),
            forall|d: int| r.dims_ok(d),
    {
        GradMap { entries: Vec::new() }
    }

    /// Number of stored gradients.
    pub fn len(&self) -> (r: usize)
        ensures
            r == self.entries@.len(),
    {
        self.entries.len()
    }

    /// Whether a gradient is stored for `f`.
    pub fn contains_key(&self, f: usize) -> (r: bool)
        requires
            self.wf(),
        ensures
            r == (self.spec_get(f) is Some),
    {
        let n = self.entries.len();
        let mut i: usize = 0;
        while i < n
            invariant
                self.wf(),
                n == self.entries@.len(),
                i <= n,
                forall|j: int| 0 <= j < i ==> (#[trigger] self.entries@[j]).0 != f,
            decreases n - i,
        {
            if self.entries[i].0 == f {
                proof {
                    lemma_lookup_present(self.entries@, i as int);
                }
                return true;
            }
            i += 1;
        }
        proof {
            lemma_lookup_absent(self.entries@, f);
        }
        false
    }

    /// The stored gradient for `f`, if any.
    pub fn get(&self, f: usize) -> (r: Option<&Vec<u32>>)
        requires
            self.wf(),
        ensures
            match r {
                Some(v) => self.spec_get(f) == Some(v@),
                None => self.spec_get(f) is None,
            },
    {
        let n = self.entries.len();
        let mut i: usize = 0;
        while i < n
            invariant
                self.wf(),
                n == self.entries@.len(),
                i <= n,
                forall|j: int| 0 <= j < i ==> (#[trigger] self.entries@[j]).0 != f,
            decreases n - i,
        {
            if self.entries[i].0 == f {
                proof {
                    lemma_lookup_present(self.entries@, i as int);
                }
                return Some(&self.entries[i].1);
            }
            i += 1;
        }
        proof {
            lemma_lookup_absent(self.entries@, f);
        }
        None
    }

    /// Rebind a key that is already present.
    pub fn update_value(&mut self, f: usize, grad: Vec<u32>)
        requires
            old(self).wf(),
            old(self).spec_get(f) is Some,
        ensures
            final(self).wf(),
            final(self).spec_get(f) == Some(grad@),
            forall|g: usize| g != f ==> final(self).spec_get(g) == old(self).spec_get(g),
            final(self).entries@.len() == old(self).entries@.len(),
            forall|i: int|
                0 <= i < old(self).entries@.len() ==> (#[trigger] final(self).entries@[i]).0 == old(
                    self,
                ).entries@[i].0,
            forall|i: int|
                0 <= i < old(self).entries@.len() ==> (#[trigger] final(self).entries@[i]) == old(
                    self,
                ).entries@[i] || final(self).entries@[i] == (f, grad),
    {
        let n = self.entries.len();
        let mut i: usize = 0;
        while i < n
            invariant
                old(self).wf(),
                self == old(self),
                n == self.entries@.len(),
                i <= n,
                forall|j: int| 0 <= j < i ==> (#[trigger] self.entries@[j]).0 != f,
            decreases n - i,
        {
            if self.entries[i].0 == f {
                let ghost pre = self.entries@;
                self.entries.set(i, (f, grad));
                proof {
                    assert(pre[i as int].0 == f);
                    assert(self.entries@ =~= pre.update(i as int, (f, grad)));
                    assert forall|p: int, q: int|
                        0 <= p < q < self.entries@.len() implies (
                    #[trigger] self.entries@[p]).0 != (#[trigger] self.entries@[q]).0 by {
                        if p != i && q != i {
                            assert(self.entries@[p] == pre[p] && self.entries@[q] == pre[q]);
                        } else if p == i {
                            assert(self.entries@[q] == pre[q]);
                            assert(pre[p].0 == f);
                        } else {
                            assert(self.entries@[p] == pre[p]);
                            assert(pre[q].0 == f);
                        }
                    }
                    assert forall|g: usize| true implies lookup_grad(self.entries@, g) == if g
                        == f {
                        Some(grad@)
                    } else {
                        lookup_grad(pre, g)
                    } by {
                        lemma_lookup_update(pre, i as int, (f, grad), g);
                    }
                }
                return ;
            }
            i += 1;
        }
        proof {
            lemma_lookup_absent(self.entries@, f);
            assert(false);
        }
    }

    /// Store a gradient for a key not yet present.
    pub fn insert(&mut self, f: usize, grad: Vec<u32>)
        requires
            old(self).wf(),
            old(self).spec_get(f) is None,
        ensures
            final(self).wf(),
            final(self).spec_get(f) == Some(grad@),
            forall|g: usize| g != f ==> final(self).spec_get(g) == old(self).spec_get(g),
            final(self).entries@ == old(self).entries@.push((f, grad)),
    {
        proof {
            if exists|i: int| 0 <= i < self.entries@.len() && (#[trigger] self.entries@[i]).0 == f {
                let i = choose|i: int|
                    0 <= i < self.entries@.len() && (#[trigger] self.entries@[i]).0 == f;
                lemma_lookup_present(self.entries@, i);
                assert(false);
            }
        }
        let ghost pre = self.entries@;
        self.entries.push((f, grad));
        proof {
            assert(self.entries@.drop_last() =~= pre);
            assert forall|i: int, j: int|
                0 <= i < j < self.entries@.len() implies (#[trigger] self.entries@[i]).0 != (
            #[trigger] self.entries@[j]).0 by {
                if j < self.entries@.len() - 1 {
                    assert(pre[i] == self.entries@[i] && pre[j] == self.entries@[j]);
                } else {
                    assert(self.entries@[i] == pre[i]);
                    assert(pre[i].0 != f);
                }
            }
            assert forall|g: usize|
                g != f implies lookup_grad(self.entries@, g) == lookup_grad(pre, g) by {}
        }
    }
}

/// The gradient handed to one feature of a construction: the upstream
/// gradient of the pooled vector, scaled by multiplicity over total count.
pub open spec fn feature_grad(c: u64, n: u64, upstream: Seq<u32>) -> Seq<u32> {
    scale_vec(div_bits(int_bits(c), int_bits(n)), upstream)
}

/// Read the gradients of every feature of one construction out into `grads`.
///
/// A feature already present in `grads` is left exactly as it was — a
/// feature taking part in several constructions is never double-counted.  A
/// new feature's gradient is its share of the construction's upstream
/// gradient; it is kept only when every coordinate is finite.
pub fn extract_grads(
    grads: &mut GradMap,
    vars: &FeatureMap,
    upstream: &Vec<u32>,
    total: u64,
)
    requires
        old(grads).wf(),
        vars.wf(),
    ensures
        final(grads).wf(),
        // first occurrence wins: what was stored stays untouched
        forall|g: usize|
            old(grads).spec_get(g) is Some ==> final(grads).spec_get(g) == old(grads).spec_get(g),
        // keys never shrink, and only keys of this construction are added
        forall|g: usize|
            final(grads).spec_get(g) is Some ==> old(grads).spec_get(g) is Some || vars.count_of(
                g,
            ) > 0,
        // a new feature receives its share of the upstream gradient exactly
        // when that share is finite
        forall|i: int|
            0 <= i < vars.entries@.len() && old(grads).spec_get(
                (#[trigger] vars.entries@[i]).0,
            ) is None ==> final(grads).spec_get(vars.entries@[i].0) == {
                let share = feature_grad(vars.entries@[i].1, total, upstream@);
                if all_finite_seq(share) {
                    Some(share)
                } else {
                    None::<Seq<u32>>
                }
            },
        forall|n: int|
            old(grads).keys_below(n) && vars.keys_below(n) ==> final(grads).keys_below(n),
        forall|d: int|
            old(grads).dims_ok(d) && upstream@.len() == d ==> final(grads).dims_ok(d),
        old(grads).all_finite() ==> final(grads).all_finite(),
    {
        let n_vars = vars.entries.len();
        let mut k: usize = 0;
        while k < n_vars
            invariant
                grads.wf(),
                vars.wf(),
                n_vars == vars.entries@.len(),
                k <= n_vars,
                forall|g: usize|
                    old(grads).spec_get(g) is Some ==> grads.spec_get(g) == old(grads).spec_get(
                        g,
                    ),
                forall|g: usize|
                    grads.spec_get(g) is Some ==> old(grads).spec_get(g) is Some || vars.count_of(
                        g,
                    ) > 0,
                forall|i: int|
                    0 <= i < k && old(grads).spec_get((#[trigger] vars.entries@[i]).0) is None
                        ==> grads.spec_get(vars.entries@[i].0) == {
                        let share = feature_grad(vars.entries@[i].1, total, upstream@);
                        if all_finite_seq(share) {
                            Some(share)
                        } else {
                            None::<Seq<u32>>
                        }
                    },
                forall|i: int|
                    k <= i < n_vars && old(grads).spec_get((#[trigger] vars.entries@[i]).0)
                        is None ==> grads.spec_get(vars.entries@[i].0) == None::<Seq<u32>>,
                forall|n: int|
                    old(grads).keys_below(n) && vars.keys_below(n) ==> grads.keys_below(n),
                forall|d: int|
                    old(grads).dims_ok(d) && upstream@.len() == d ==> grads.dims_ok(d),
                old(grads).all_finite() ==> grads.all_finite(),
            decreases n_vars - k,
        {
            let (f, c) = vars.entries[k];
            if !grads.contains_key(f) {
                let coeff = f_div(f_from_int(c), f_from_int(total));
                let share = vec_scale(coeff, upstream);
                if vec_all_finite(&share) {
                    let ghost pre_g = *grads;
                    grads.insert(f, share);
                    proof {
                        assert forall|n: int|
                            old(grads).keys_below(n) && vars.keys_below(n) implies grads.keys_below(
                            n,
                        ) by {
                            assert forall|i: int|
                                0 <= i < grads.entries@.len() implies (
                            #[trigger] grads.entries@[i]).0 < n by {
                                if i < pre_g.entries@.len() {
                                    assert(grads.entries@[i] == pre_g.entries@[i]);
                                } else {
                                    assert(vars.entries@[k as int].0 < n);
                                }
                            }
                        }
                        assert forall|d: int|
                            old(grads).dims_ok(d) && upstream@.len() == d implies grads.dims_ok(
                            d,
                        ) by {
                            assert forall|i: int|
                                0 <= i < grads.entries@.len() implies (
                            #[trigger] grads.entries@[i]).1@.len() == d by {
                                if i < pre_g.entries@.len() {
                                    assert(grads.entries@[i] == pre_g.entries@[i]);
                                }
                            }
                        }
                        if pre_g.all_finite() {
                            assert forall|i: int|
                                0 <= i < grads.entries@.len() implies all_finite_seq(
                                (#[trigger] grads.entries@[i]).1@,
                            ) by {
                                if i < pre_g.entries@.len() {
                                    assert(grads.entries@[i] == pre_g.entries@[i]);
                                }
                            }
                        }
                        assert(grads.spec_get(f) == Some(
                            feature_grad(vars.entries@[k as int].1, total, upstream@),
                        ));
                        assert(vars.count_of(f) > 0) by {
                            crate::model::lemma_count_in_entry(vars.entries@, k as int);
                        }
                        assert forall|i: int|
                            k + 1 <= i < n_vars && old(grads).spec_get(
                                (#[trigger] vars.entries@[i]).0,
                            ) is None implies grads.spec_get(vars.entries@[i].0) == None::<
                            Seq<u32>,
                        > by {
                            assert(vars.entries@[i].0 != f);
                        }
                    }
                }
            }
            k += 1;
        }
    }

} // verus!
