//! Optimizers: plain gradient descent, momentum, and Adam.
//!
//! Each applies one batch's merged gradient map to the shared
//! feature-embedding table (and its own moment tables), feature by feature.
//! A feature whose incoming gradient has any non-finite coordinate is
//! skipped entirely for the step, leaving its row and moment state
//! unchanged; rows without an incoming gradient are never touched.

use vstd::prelude::*;

use crate::embedding::{Distance, EmbeddingStore};
use crate::fp::{
    add_bits, div_bits, f_add, f_div, f_from_int, f_mul, f_sqrt, f_sub, int_bits, mul_bits,
    sqrt_bits, sub_bits,
};
use crate::loss::{lemma_lookup_absent, lookup_grad, GradMap};
use crate::vecmath::{
    add_vecs, all_finite_seq, scale_vec, sub_vecs, vec_add, vec_all_finite, vec_scale, vec_sub,
};

verus! {

/// One plain gradient-descent row update: `row − α·g`.
pub open spec fn sgd_row(alpha: u32, row: Seq<u32>, g: Seq<u32>) -> Seq<u32> {
    sub_vecs(row, scale_vec(alpha, g))
}

/// What a row looks like after the step: updated when a finite gradient
/// came in for it, untouched otherwise.
pub open spec fn sgd_expected(alpha: u32, row: Seq<u32>, contribution: Option<Seq<u32>>) -> Seq<
    u32,
> {
    match contribution {
        Option::None => row,
        Option::Some(g) => if all_finite_seq(g) {
            sgd_row(alpha, row, g)
        } else {
            row
        },
    }
}

/// Plain stochastic gradient descent: `row −= α·grad` for every feature of
/// the map whose gradient is coordinate-wise finite.
pub fn sgd(feature_embeddings: &mut EmbeddingStore, grads: &GradMap, alpha: u32)
    requires
        old(feature_embeddings).wf(),
        grads.wf(),
        grads.keys_below(old(feature_embeddings).spec_len() as int),
        grads.dims_ok(old(feature_embeddings).dims as int),
    ensures
        final(feature_embeddings).wf(),
        final(feature_embeddings).dims == old(feature_embeddings).dims,
        final(feature_embeddings).spec_len() == old(feature_embeddings).spec_len(),
        forall|r: usize|
            #![trigger final(feature_embeddings).row_at(r as int)]
            r < old(feature_embeddings).spec_len() ==> final(feature_embeddings).row_at(r as int)
                == sgd_expected(
                alpha,
                old(feature_embeddings).row_at(r as int),
                grads.spec_get(r),
            ),
{
    let n_entries = grads.entries.len();
    let mut k: usize = 0;
    while k < n_entries
        invariant
            feature_embeddings.wf(),
            grads.wf(),
            grads.keys_below(old(feature_embeddings).spec_len() as int),
            grads.dims_ok(old(feature_embeddings).dims as int),
            feature_embeddings.dims == old(feature_embeddings).dims,
            feature_embeddings.spec_len() == old(feature_embeddings).spec_len(),
            n_entries == grads.entries@.len(),
            k <= n_entries,
            forall|r: usize|
                #![trigger feature_embeddings.row_at(r as int)]
                r < old(feature_embeddings).spec_len() ==> feature_embeddings.row_at(r as int)
                    == sgd_expected(
                    alpha,
                    old(feature_embeddings).row_at(r as int),
                    lookup_grad(grads.entries@.take(k as int), r),
                ),
        decreases n_entries - k,
    {
        let (f, g) = &grads.entries[k];
        proof {
            assert forall|j: int| 0 <= j < k implies (
            #[trigger] grads.entries@.take(k as int)[j]).0 != grads.entries@[k as int].0 by {
                assert(grads.entries@.take(k as int)[j] == grads.entries@[j]);
            }
            lemma_lookup_absent(grads.entries@.take(k as int), grads.entries@[k as int].0);
            assert(grads.entries@[k as int].0 < feature_embeddings.spec_len());
            assert(grads.entries@[k as int].1@.len() == feature_embeddings.dims);
        }
        let ghost pre_fe = *feature_embeddings;
        let finite = vec_all_finite(g);
        if finite {
            let row = feature_embeddings.get_embedding(*f);
            let updated = vec_sub(row, &vec_scale(alpha, g));
            feature_embeddings.set_embedding(*f, updated);
        }
        proof {
            assert(grads.entries@.take(k + 1) =~= grads.entries@.take(k as int).push(
                grads.entries@[k as int],
            ));
            assert(grads.entries@.take(k + 1).drop_last() =~= grads.entries@.take(k as int));
            assert(grads.entries@.take(k + 1).last() == grads.entries@[k as int]);
            let fk = grads.entries@[k as int].0;
            let gk = grads.entries@[k as int].1@;
            assert forall|r: usize|
                #![trigger feature_embeddings.row_at(r as int)]
                r < old(feature_embeddings).spec_len() implies feature_embeddings.row_at(r as int)
                == sgd_expected(
                alpha,
                old(feature_embeddings).row_at(r as int),
                lookup_grad(grads.entries@.take(k + 1), r),
            ) by {
                assert(pre_fe.row_at(r as int) == sgd_expected(
                    alpha,
                    old(feature_embeddings).row_at(r as int),
                    lookup_grad(grads.entries@.take(k as int), r),
                ));
                if r == fk {
                    assert(lookup_grad(grads.entries@.take(k as int), fk) is None);
                    assert(lookup_grad(grads.entries@.take(k + 1), fk) == Some(gk));
                    assert(pre_fe.row_at(r as int) == old(feature_embeddings).row_at(r as int));
                    if finite {
                        assert(feature_embeddings.row_at(r as int) == sub_vecs(
                            pre_fe.row_at(r as int),
                            scale_vec(alpha, gk),
                        ));
                    } else {
                        assert(feature_embeddings.row_at(r as int) == pre_fe.row_at(r as int));
                    }
                } else {
                    assert(lookup_grad(grads.entries@.take(k + 1), r) == lookup_grad(
                        grads.entries@.take(k as int),
                        r,
                    ));
                    assert(feature_embeddings.row_at(r as int) == pre_fe.row_at(r as int));
                }
            }
        }
        k += 1;
    }
    proof {
        assert(grads.entries@.take(n_entries as int) =~= grads.entries@);
    }
}


/// One momentum velocity update: `γ·velocity + g`.
pub open spec fn momentum_vel(gamma: u32, vel: Seq<u32>, g: Seq<u32>) -> Seq<u32> {
    add_vecs(scale_vec(gamma, vel), g)
}

/// The velocity after the step: decayed and incremented when a finite
/// gradient came in, untouched otherwise.
pub open spec fn momentum_expected_vel(
    gamma: u32,
    vel: Seq<u32>,
    contribution: Option<Seq<u32>>,
) -> Seq<u32> {
    match contribution {
        Option::None => vel,
        Option::Some(g) => if all_finite_seq(g) {
            momentum_vel(gamma, vel, g)
        } else {
            vel
        },
    }
}

/// The embedding row after the step: moved along the new velocity when a
/// finite gradient came in, untouched otherwise.
pub open spec fn momentum_expected_row(
    alpha: u32,
    gamma: u32,
    row: Seq<u32>,
    vel: Seq<u32>,
    contribution: Option<Seq<u32>>,
) -> Seq<u32> {
    match contribution {
        Option::None => row,
        Option::Some(g) => if all_finite_seq(g) {
            sub_vecs(row, scale_vec(alpha, momentum_vel(gamma, vel, g)))
        } else {
            row
        },
    }
}

/// Momentum optimizer: a velocity table shaped like the embedding table.
pub struct MomentumOptimizer {
    /// Velocity decay factor.
    pub gamma: u32,
    /// Per-feature velocity, one row per embedding row.
    pub mom: EmbeddingStore,
}

impl MomentumOptimizer {
    /// Well-formed for a table of `length` rows of `dims`.
    pub open spec fn wf(self, dims: int, length: int) -> bool {
        &&& self.mom.wf()
        &&& self.mom.dims == dims
        &&& self.mom.spec_len() == length
    }

    /// A momentum optimizer with zeroed velocity.
    pub fn new(gamma: u32, dims: usize, length: usize) -> (r: MomentumOptimizer)
        ensures
            r.wf(dims as int, length as int),
            r.gamma == gamma,
            forall|i: int|
                0 <= i < length ==> r.mom.row_at(i) == crate::vecmath::zero_vec(dims as nat),
    {
        MomentumOptimizer { gamma, mom: EmbeddingStore::new(length, dims, Distance::Cosine) }
    }

    /// Apply one batch's merged gradients: for every feature with a finite
    /// gradient, `velocity := γ·velocity + grad` and `row −= α·velocity`.
    pub fn update(
        &mut self,
        feature_embeddings: &mut EmbeddingStore,
        grads: &GradMap,
        alpha: u32,
    )
        requires
            old(feature_embeddings).wf(),
            old(self).wf(
                old(feature_embeddings).dims as int,
                old(feature_embeddings).spec_len() as int,
            ),
            grads.wf(),
            grads.keys_below(old(feature_embeddings).spec_len() as int),
            grads.dims_ok(old(feature_embeddings).dims as int),
        ensures
            final(feature_embeddings).wf(),
            final(feature_embeddings).dims == old(feature_embeddings).dims,
            final(feature_embeddings).spec_len() == old(feature_embeddings).spec_len(),
            final(self).gamma == old(self).gamma,
            final(self).wf(
                old(feature_embeddings).dims as int,
                old(feature_embeddings).spec_len() as int,
            ),
            forall|r: usize|
                #![trigger final(self).mom.row_at(r as int)]
                r < old(feature_embeddings).spec_len() ==> final(self).mom.row_at(r as int)
                    == momentum_expected_vel(
                    old(self).gamma,
                    old(self).mom.row_at(r as int),
                    grads.spec_get(r),
                ),
            forall|r: usize|
                #![trigger final(feature_embeddings).row_at(r as int)]
                r < old(feature_embeddings).spec_len() ==> final(feature_embeddings).row_at(
                    r as int,
                ) == momentum_expected_row(
                    alpha,
                    old(self).gamma,
                    old(feature_embeddings).row_at(r as int),
                    old(self).mom.row_at(r as int),
                    grads.spec_get(r),
                ),
    {
        let mut vel_table = EmbeddingStore::new(0, 0, Distance::Cosine);
        core::mem::swap(&mut vel_table, &mut self.mom);
        let updated = momentum_apply(vel_table, self.gamma, feature_embeddings, grads, alpha);
        self.mom = updated;
    }
}

/// The momentum step over an explicit velocity table, handed back updated.
fn momentum_apply(
    mom: EmbeddingStore,
    gamma: u32,
    feature_embeddings: &mut EmbeddingStore,
    grads: &GradMap,
    alpha: u32,
) -> (new_mom: EmbeddingStore)
    requires
        old(feature_embeddings).wf(),
        mom.wf(),
        mom.dims == old(feature_embeddings).dims,
        mom.spec_len() == old(feature_embeddings).spec_len(),
        grads.wf(),
        grads.keys_below(old(feature_embeddings).spec_len() as int),
        grads.dims_ok(old(feature_embeddings).dims as int),
    ensures
        final(feature_embeddings).wf(),
        final(feature_embeddings).dims == old(feature_embeddings).dims,
        final(feature_embeddings).spec_len() == old(feature_embeddings).spec_len(),
        new_mom.wf(),
        new_mom.dims == mom.dims,
        new_mom.spec_len() == mom.spec_len(),
        forall|r: usize|
            #![trigger new_mom.row_at(r as int)]
            r < old(feature_embeddings).spec_len() ==> new_mom.row_at(r as int)
                == momentum_expected_vel(gamma, mom.row_at(r as int), grads.spec_get(r)),
        forall|r: usize|
            #![trigger final(feature_embeddings).row_at(r as int)]
            r < old(feature_embeddings).spec_len() ==> final(feature_embeddings).row_at(r as int)
                == momentum_expected_row(
                alpha,
                gamma,
                old(feature_embeddings).row_at(r as int),
                mom.row_at(r as int),
                grads.spec_get(r),
            ),
{
    let ghost orig_fe = *feature_embeddings;
    let ghost orig_mom = mom;
    let mut mom = mom;
    let n_entries = grads.entries.len();
    let mut k: usize = 0;
    while k < n_entries
        invariant
            feature_embeddings.wf(),
            mom.wf(),
            mom.dims == orig_fe.dims,
            mom.spec_len() == orig_fe.spec_len(),
            grads.wf(),
            grads.keys_below(orig_fe.spec_len() as int),
            grads.dims_ok(orig_fe.dims as int),
            feature_embeddings.dims == orig_fe.dims,
            feature_embeddings.spec_len() == orig_fe.spec_len(),
            n_entries == grads.entries@.len(),
            k <= n_entries,
            forall|r: usize|
                #![trigger mom.row_at(r as int)]
                r < orig_fe.spec_len() ==> mom.row_at(r as int) == momentum_expected_vel(
                    gamma,
                    orig_mom.row_at(r as int),
                    lookup_grad(grads.entries@.take(k as int), r),
                ),
            forall|r: usize|
                #![trigger feature_embeddings.row_at(r as int)]
                r < orig_fe.spec_len() ==> feature_embeddings.row_at(r as int)
                    == momentum_expected_row(
                    alpha,
                    gamma,
                    orig_fe.row_at(r as int),
                    orig_mom.row_at(r as int),
                    lookup_grad(grads.entries@.take(k as int), r),
                ),
        decreases n_entries - k,
    {
        let (f, gvec) = &grads.entries[k];
        proof {
            assert forall|j: int| 0 <= j < k implies (
            #[trigger] grads.entries@.take(k as int)[j]).0 != grads.entries@[k as int].0 by {
                assert(grads.entries@.take(k as int)[j] == grads.entries@[j]);
            }
            lemma_lookup_absent(grads.entries@.take(k as int), grads.entries@[k as int].0);
            assert(grads.entries@[k as int].0 < feature_embeddings.spec_len());
            assert(grads.entries@[k as int].1@.len() == feature_embeddings.dims);
        }
        let ghost pre_fe = *feature_embeddings;
        let ghost pre_mom = mom;
        let finite = vec_all_finite(gvec);
        if finite {
            let vel = mom.get_embedding(*f);
            let new_vel = vec_add(&vec_scale(gamma, vel), gvec);
            mom.set_embedding(*f, new_vel);
            let row = feature_embeddings.get_embedding(*f);
            let vel_now = mom.get_embedding(*f);
            let updated = vec_sub(row, &vec_scale(alpha, vel_now));
            feature_embeddings.set_embedding(*f, updated);
        }
        let ghost kk = k as int;
        k += 1;
        proof {
            assert(grads.entries@.take(kk + 1) =~= grads.entries@.take(kk).push(
                grads.entries@[kk],
            ));
            assert(grads.entries@.take(kk + 1).drop_last() =~= grads.entries@.take(kk));
            assert(grads.entries@.take(kk + 1).last() == grads.entries@[kk]);
            assert(k as int == kk + 1);
            let fk = grads.entries@[kk].0;
            let gk = grads.entries@[kk].1@;
            assert forall|r: usize|
                #![trigger mom.row_at(r as int)]
                r < orig_fe.spec_len() implies mom.row_at(r as int) == momentum_expected_vel(
                gamma,
                orig_mom.row_at(r as int),
                lookup_grad(grads.entries@.take(k as int), r),
            ) by {
                if r == fk {
                    assert(lookup_grad(grads.entries@.take(kk), fk) is None);
                    assert(lookup_grad(grads.entries@.take(k as int), fk) == Some(gk));
                    assert(pre_mom.row_at(r as int) == orig_mom.row_at(r as int));
                } else {
                    assert(lookup_grad(grads.entries@.take(k as int), r) == lookup_grad(
                        grads.entries@.take(kk),
                        r,
                    ));
                    assert(mom.row_at(r as int) == pre_mom.row_at(r as int));
                }
            }
            assert forall|r: usize|
                #![trigger feature_embeddings.row_at(r as int)]
                r < orig_fe.spec_len() implies feature_embeddings.row_at(r as int)
                == momentum_expected_row(
                alpha,
                gamma,
                orig_fe.row_at(r as int),
                orig_mom.row_at(r as int),
                lookup_grad(grads.entries@.take(k as int), r),
            ) by {
                if r == fk {
                    assert(lookup_grad(grads.entries@.take(kk), fk) is None);
                    assert(lookup_grad(grads.entries@.take(k as int), fk) == Some(gk));
                    assert(pre_fe.row_at(r as int) == orig_fe.row_at(r as int));
                    assert(pre_mom.row_at(r as int) == orig_mom.row_at(r as int));
                } else {
                    assert(lookup_grad(grads.entries@.take(k as int), r) == lookup_grad(
                        grads.entries@.take(kk),
                        r,
                    ));
                    assert(feature_embeddings.row_at(r as int) == pre_fe.row_at(r as int));
                    assert(mom.row_at(r as int) == pre_mom.row_at(r as int));
                }
            }
        }
    }
    proof {
        assert(grads.entries@.take(n_entries as int) =~= grads.entries@);
    }
    mom
}

/// The binary32 power `b^t` computed by repeated multiplication.
pub open spec fn pow_bits(b: u32, t: nat) -> u32
    decreases t,
{
    if t == 0 {
        int_bits(1)
    } else {
        mul_bits(pow_bits(b, (t - 1) as nat), b)
    }
}

/// Coordinate-wise first-moment update: `β1·m + (1−β1)·g`.
pub open spec fn adam_m_vec(b1: u32, m: Seq<u32>, g: Seq<u32>) -> Seq<u32> {
    Seq::new(
        m.len(),
        |i: int|
            add_bits(
                mul_bits(b1, m[i]),
                mul_bits(sub_bits(int_bits(1), b1), g[i]),
            ),
    )
}

/// Coordinate-wise second-moment update: `β2·v + (1−β2)·g²`.
pub open spec fn adam_v_vec(b2: u32, v: Seq<u32>, g: Seq<u32>) -> Seq<u32> {
    Seq::new(
        v.len(),
        |i: int|
            add_bits(
                mul_bits(b2, v[i]),
                mul_bits(sub_bits(int_bits(1), b2), mul_bits(g[i], g[i])),
            ),
    )
}

/// Coordinate-wise row update with bias-corrected moments:
/// `row − α · (m̂ / (√v̂ + ε))` with `m̂ = m/(1−β1^t)` and `v̂ = v/(1−β2^t)`.
pub open spec fn adam_row_vec(
    alpha: u32,
    row: Seq<u32>,
    m2: Seq<u32>,
    v2: Seq<u32>,
    b1t: u32,
    b2t: u32,
    eps: u32,
) -> Seq<u32> {
    Seq::new(
        row.len(),
        |i: int|
            sub_bits(
                row[i],
                mul_bits(
                    alpha,
                    div_bits(
                        div_bits(m2[i], sub_bits(int_bits(1), b1t)),
                        add_bits(
                            sqrt_bits(div_bits(v2[i], sub_bits(int_bits(1), b2t))),
                            eps,
                        ),
                    ),
                ),
            ),
    )
}

/// The first moment after the step.
pub open spec fn adam_expected_m(b1: u32, m: Seq<u32>, contribution: Option<Seq<u32>>) -> Seq<
    u32,
> {
    match contribution {
        Option::None => m,
        Option::Some(g) => if all_finite_seq(g) {
            adam_m_vec(b1, m, g)
        } else {
            m
        },
    }
}

/// The second moment after the step.
pub open spec fn adam_expected_v(b2: u32, v: Seq<u32>, contribution: Option<Seq<u32>>) -> Seq<
    u32,
> {
    match contribution {
        Option::None => v,
        Option::Some(g) => if all_finite_seq(g) {
            adam_v_vec(b2, v, g)
        } else {
            v
        },
    }
}

/// The embedding row after the step.
pub open spec fn adam_expected_row(
    alpha: u32,
    b1: u32,
    b2: u32,
    b1t: u32,
    b2t: u32,
    eps: u32,
    row: Seq<u32>,
    m: Seq<u32>,
    v: Seq<u32>,
    contribution: Option<Seq<u32>>,
) -> Seq<u32> {
    match contribution {
        Option::None => row,
        Option::Some(g) => if all_finite_seq(g) {
            adam_row_vec(alpha, row, adam_m_vec(b1, m, g), adam_v_vec(b2, v, g), b1t, b2t, eps)
        } else {
            row
        },
    }
}

/// The Adam epsilon, `1e-8`, built exactly: `1 / (10^4 · 10^4)`.
pub open spec fn adam_eps_bits() -> u32 {
    div_bits(int_bits(1), mul_bits(int_bits(10000), int_bits(10000)))
}

/// Adam optimizer: first and second moment tables shaped like the embedding
/// table, with running bias-correction powers of the decay factors.
pub struct AdamOptimizer {
    /// First-moment decay factor β1.
    pub beta_1: u32,
    /// Second-moment decay factor β2.
    pub beta_2: u32,
    /// Denominator floor ε.
    pub eps: u32,
    /// First raw moment per feature.
    pub mom: EmbeddingStore,
    /// Second raw moment per feature.
    pub var: EmbeddingStore,
    /// Number of steps taken so far.
    pub t: u64,
    /// `β1^t`, kept in lockstep with `t`.
    pub beta_1_t: u32,
    /// `β2^t`, kept in lockstep with `t`.
    pub beta_2_t: u32,
}

impl AdamOptimizer {
    /// Well-formed for a table of `length` rows of `dims`.
    pub open spec fn wf(self, dims: int, length: int) -> bool {
        &&& self.mom.wf()
        &&& self.mom.dims == dims
        &&& self.mom.spec_len() == length
        &&& self.var.wf()
        &&& self.var.dims == dims
        &&& self.var.spec_len() == length
        &&& self.eps == adam_eps_bits()
        &&& self.beta_1_t == pow_bits(self.beta_1, self.t as nat)
        &&& self.beta_2_t == pow_bits(self.beta_2, self.t as nat)
    }

    /// An Adam optimizer with zeroed moments, at step zero, with ε = 1e-8.
    pub fn new(beta_1: u32, beta_2: u32, dims: usize, length: usize) -> (r: AdamOptimizer)
        ensures
            r.wf(dims as int, length as int),
            r.beta_1 == beta_1,
            r.beta_2 == beta_2,
            r.t == 0,
            forall|i: int|
                0 <= i < length ==> r.mom.row_at(i) == crate::vecmath::zero_vec(dims as nat)
                    && r.var.row_at(i) == crate::vecmath::zero_vec(dims as nat),
    {
        let eps = f_div(f_from_int(1u64), f_mul(f_from_int(10000u64), f_from_int(10000u64)));
        let one = f_from_int(1u64);
        AdamOptimizer {
            beta_1,
            beta_2,
            eps,
            mom: EmbeddingStore::new(length, dims, Distance::Cosine),
            var: EmbeddingStore::new(length, dims, Distance::Cosine),
            t: 0,
            beta_1_t: one,
            beta_2_t: one,
        }
    }

    /// Apply one batch's merged gradients as the next Adam step.
    pub fn update(
        &mut self,
        feature_embeddings: &mut EmbeddingStore,
        grads: &GradMap,
        alpha: u32,
    )
        requires
            old(feature_embeddings).wf(),
            old(self).wf(
                old(feature_embeddings).dims as int,
                old(feature_embeddings).spec_len() as int,
            ),
            old(self).t < u64::MAX,
            grads.wf(),
            grads.keys_below(old(feature_embeddings).spec_len() as int),
            grads.dims_ok(old(feature_embeddings).dims as int),
        ensures
            final(feature_embeddings).wf(),
            final(feature_embeddings).dims == old(feature_embeddings).dims,
            final(feature_embeddings).spec_len() == old(feature_embeddings).spec_len(),
            final(self).wf(
                old(feature_embeddings).dims as int,
                old(feature_embeddings).spec_len() as int,
            ),
            final(self).beta_1 == old(self).beta_1,
            final(self).beta_2 == old(self).beta_2,
            final(self).t == old(self).t + 1,
            forall|r: usize|
                #![trigger final(self).mom.row_at(r as int)]
                r < old(feature_embeddings).spec_len() ==> final(self).mom.row_at(r as int)
                    == adam_expected_m(
                    old(self).beta_1,
                    old(self).mom.row_at(r as int),
                    grads.spec_get(r),
                ),
            forall|r: usize|
                #![trigger final(self).var.row_at(r as int)]
                r < old(feature_embeddings).spec_len() ==> final(self).var.row_at(r as int)
                    == adam_expected_v(
                    old(self).beta_2,
                    old(self).var.row_at(r as int),
                    grads.spec_get(r),
                ),
            forall|r: usize|
                #![trigger final(feature_embeddings).row_at(r as int)]
                r < old(feature_embeddings).spec_len() ==> final(feature_embeddings).row_at(
                    r as int,
                ) == adam_expected_row(
                    alpha,
                    old(self).beta_1,
                    old(self).beta_2,
                    pow_bits(old(self).beta_1, (old(self).t + 1) as nat),
                    pow_bits(old(self).beta_2, (old(self).t + 1) as nat),
                    old(self).eps,
                    old(feature_embeddings).row_at(r as int),
                    old(self).mom.row_at(r as int),
                    old(self).var.row_at(r as int),
                    grads.spec_get(r),
                ),
    {
        self.t = self.t + 1;
        self.beta_1_t = f_mul(self.beta_1_t, self.beta_1);
        self.beta_2_t = f_mul(self.beta_2_t, self.beta_2);
        let mut mom_table = EmbeddingStore::new(0, 0, Distance::Cosine);
        let mut var_table = EmbeddingStore::new(0, 0, Distance::Cosine);
        core::mem::swap(&mut mom_table, &mut self.mom);
        core::mem::swap(&mut var_table, &mut self.var);
        let (new_mom, new_var) = adam_apply(
            mom_table,
            var_table,
            self.beta_1,
            self.beta_2,
            self.beta_1_t,
            self.beta_2_t,
            self.eps,
            feature_embeddings,
            grads,
            alpha,
        );
        self.mom = new_mom;
        self.var = new_var;
    }
}

/// The Adam step over explicit moment tables, handed back updated.
fn adam_apply(
    mom: EmbeddingStore,
    var: EmbeddingStore,
    b1: u32,
    b2: u32,
    b1t: u32,
    b2t: u32,
    eps: u32,
    feature_embeddings: &mut EmbeddingStore,
    grads: &GradMap,
    alpha: u32,
) -> (out: (EmbeddingStore, EmbeddingStore))
    requires
        old(feature_embeddings).wf(),
        mom.wf(),
        mom.dims == old(feature_embeddings).dims,
        mom.spec_len() == old(feature_embeddings).spec_len(),
        var.wf(),
        var.dims == old(feature_embeddings).dims,
        var.spec_len() == old(feature_embeddings).spec_len(),
        grads.wf(),
        grads.keys_below(old(feature_embeddings).spec_len() as int),
        grads.dims_ok(old(feature_embeddings).dims as int),
    ensures
        final(feature_embeddings).wf(),
        final(feature_embeddings).dims == old(feature_embeddings).dims,
        final(feature_embeddings).spec_len() == old(feature_embeddings).spec_len(),
        out.0.wf() && out.0.dims == mom.dims && out.0.spec_len() == mom.spec_len(),
        out.1.wf() && out.1.dims == var.dims && out.1.spec_len() == var.spec_len(),
        forall|r: usize|
            #![trigger out.0.row_at(r as int)]
            r < old(feature_embeddings).spec_len() ==> out.0.row_at(r as int) == adam_expected_m(
                b1,
                mom.row_at(r as int),
                grads.spec_get(r),
            ),
        forall|r: usize|
            #![trigger out.1.row_at(r as int)]
            r < old(feature_embeddings).spec_len() ==> out.1.row_at(r as int) == adam_expected_v(
                b2,
                var.row_at(r as int),
                grads.spec_get(r),
            ),
        forall|r: usize|
            #![trigger final(feature_embeddings).row_at(r as int)]
            r < old(feature_embeddings).spec_len() ==> final(feature_embeddings).row_at(r as int)
                == adam_expected_row(
                alpha,
                b1,
                b2,
                b1t,
                b2t,
                eps,
                old(feature_embeddings).row_at(r as int),
                mom.row_at(r as int),
                var.row_at(r as int),
                grads.spec_get(r),
            ),
{
    let ghost orig_fe = *feature_embeddings;
    let ghost orig_mom = mom;
    let ghost orig_var = var;
    let mut mom = mom;
    let mut var = var;
    let n_entries = grads.entries.len();
    let mut k: usize = 0;
    while k < n_entries
        invariant
            feature_embeddings.wf(),
            mom.wf(),
            mom.dims == orig_fe.dims,
            mom.spec_len() == orig_fe.spec_len(),
            var.wf(),
            var.dims == orig_fe.dims,
            var.spec_len() == orig_fe.spec_len(),
            grads.wf(),
            grads.keys_below(orig_fe.spec_len() as int),
            grads.dims_ok(orig_fe.dims as int),
            feature_embeddings.dims == orig_fe.dims,
            feature_embeddings.spec_len() == orig_fe.spec_len(),
            *old(feature_embeddings) == orig_fe,
            n_entries == grads.entries@.len(),
            k <= n_entries,
            forall|r: usize|
                #![trigger mom.row_at(r as int)]
                r < orig_fe.spec_len() ==> mom.row_at(r as int) == adam_expected_m(
                    b1,
                    orig_mom.row_at(r as int),
                    lookup_grad(grads.entries@.take(k as int), r),
                ),
            forall|r: usize|
                #![trigger var.row_at(r as int)]
                r < orig_fe.spec_len() ==> var.row_at(r as int) == adam_expected_v(
                    b2,
                    orig_var.row_at(r as int),
                    lookup_grad(grads.entries@.take(k as int), r),
                ),
            forall|r: usize|
                #![trigger feature_embeddings.row_at(r as int)]
                r < orig_fe.spec_len() ==> feature_embeddings.row_at(r as int)
                    == adam_expected_row(
                    alpha,
                    b1,
                    b2,
                    b1t,
                    b2t,
                    eps,
                    orig_fe.row_at(r as int),
                    orig_mom.row_at(r as int),
                    orig_var.row_at(r as int),
                    lookup_grad(grads.entries@.take(k as int), r),
                ),
        decreases n_entries - k,
    {
        let (f, gvec) = &grads.entries[k];
        proof {
            assert forall|j: int| 0 <= j < k implies (
            #[trigger] grads.entries@.take(k as int)[j]).0 != grads.entries@[k as int].0 by {
                assert(grads.entries@.take(k as int)[j] == grads.entries@[j]);
            }
            lemma_lookup_absent(grads.entries@.take(k as int), grads.entries@[k as int].0);
            assert(grads.entries@[k as int].0 < feature_embeddings.spec_len());
            assert(grads.entries@[k as int].1@.len() == feature_embeddings.dims);
        }
        let ghost pre_fe = *feature_embeddings;
        let ghost pre_mom = mom;
        let ghost pre_var = var;
        let finite = vec_all_finite(gvec);
        if finite {
            let m_row = mom.get_embedding(*f);
            let v_row = var.get_embedding(*f);
            let e_row = feature_embeddings.get_embedding(*f);
            let d = e_row.len();
            let one = f_from_int(1u64);
            let mut m2: Vec<u32> = Vec::new();
            let mut v2: Vec<u32> = Vec::new();
            let mut e2: Vec<u32> = Vec::new();
            let mut i: usize = 0;
            while i < d
                invariant
                    d == m_row@.len(),
                    d == v_row@.len(),
                    d == e_row@.len(),
                    d == gvec@.len(),
                    one == int_bits(1),
                    i <= d,
                    m2@.len() == i,
                    v2@.len() == i,
                    e2@.len() == i,
                    forall|j: int|
                        0 <= j < i ==> m2@[j] == adam_m_vec(b1, m_row@, gvec@)[j],
                    forall|j: int|
                        0 <= j < i ==> v2@[j] == adam_v_vec(b2, v_row@, gvec@)[j],
                    forall|j: int|
                        0 <= j < i ==> e2@[j] == adam_row_vec(
                            alpha,
                            e_row@,
                            adam_m_vec(b1, m_row@, gvec@),
                            adam_v_vec(b2, v_row@, gvec@),
                            b1t,
                            b2t,
                            eps,
                        )[j],
                decreases d - i,
            {
                let gi = gvec[i];
                let mi = f_add(f_mul(b1, m_row[i]), f_mul(f_sub(one, b1), gi));
                let vi = f_add(f_mul(b2, v_row[i]), f_mul(f_sub(one, b2), f_mul(gi, gi)));
                let mhat = f_div(mi, f_sub(one, b1t));
                let vhat = f_div(vi, f_sub(one, b2t));
                let ei = f_sub(e_row[i], f_mul(alpha, f_div(mhat, f_add(f_sqrt(vhat), eps))));
                m2.push(mi);
                v2.push(vi);
                e2.push(ei);
                i += 1;
            }
            mom.set_embedding(*f, m2);
            var.set_embedding(*f, v2);
            feature_embeddings.set_embedding(*f, e2);
            proof {
                assert(mom.row_at(grads.entries@[k as int].0 as int) =~= adam_m_vec(
                    b1,
                    pre_mom.row_at(grads.entries@[k as int].0 as int),
                    grads.entries@[k as int].1@,
                ));
                assert(var.row_at(grads.entries@[k as int].0 as int) =~= adam_v_vec(
                    b2,
                    pre_var.row_at(grads.entries@[k as int].0 as int),
                    grads.entries@[k as int].1@,
                ));
                assert(feature_embeddings.row_at(grads.entries@[k as int].0 as int)
                    =~= adam_row_vec(
                    alpha,
                    pre_fe.row_at(grads.entries@[k as int].0 as int),
                    adam_m_vec(b1, pre_mom.row_at(grads.entries@[k as int].0 as int), grads.entries@[k as int].1@),
                    adam_v_vec(b2, pre_var.row_at(grads.entries@[k as int].0 as int), grads.entries@[k as int].1@),
                    b1t,
                    b2t,
                    eps,
                ));
            }
        }
        let ghost kk = k as int;
        k += 1;
        proof {
            assert(grads.entries@.take(kk + 1) =~= grads.entries@.take(kk).push(
                grads.entries@[kk],
            ));
            assert(grads.entries@.take(kk + 1).drop_last() =~= grads.entries@.take(kk));
            assert(grads.entries@.take(kk + 1).last() == grads.entries@[kk]);
            assert(k as int == kk + 1);
            let fk = grads.entries@[kk].0;
            let gk = grads.entries@[kk].1@;
            assert forall|r: usize|
                #![trigger mom.row_at(r as int)]
                r < orig_fe.spec_len() implies mom.row_at(r as int) == adam_expected_m(
                b1,
                orig_mom.row_at(r as int),
                lookup_grad(grads.entries@.take(k as int), r),
            ) by {
                if r == fk {
                    assert(lookup_grad(grads.entries@.take(kk), fk) is None);
                    assert(lookup_grad(grads.entries@.take(k as int), fk) == Some(gk));
                    assert(pre_mom.row_at(r as int) == orig_mom.row_at(r as int));
                } else {
                    assert(lookup_grad(grads.entries@.take(k as int), r) == lookup_grad(
                        grads.entries@.take(kk),
                        r,
                    ));
                    assert(mom.row_at(r as int) == pre_mom.row_at(r as int));
                }
            }
            assert forall|r: usize|
                #![trigger var.row_at(r as int)]
                r < orig_fe.spec_len() implies var.row_at(r as int) == adam_expected_v(
                b2,
                orig_var.row_at(r as int),
                lookup_grad(grads.entries@.take(k as int), r),
            ) by {
                if r == fk {
                    assert(lookup_grad(grads.entries@.take(kk), fk) is None);
                    assert(lookup_grad(grads.entries@.take(k as int), fk) == Some(gk));
                    assert(pre_var.row_at(r as int) == orig_var.row_at(r as int));
                } else {
                    assert(lookup_grad(grads.entries@.take(k as int), r) == lookup_grad(
                        grads.entries@.take(kk),
                        r,
                    ));
                    assert(var.row_at(r as int) == pre_var.row_at(r as int));
                }
            }
            assert forall|r: usize|
                #![trigger feature_embeddings.row_at(r as int)]
                r < orig_fe.spec_len() implies feature_embeddings.row_at(r as int)
                == adam_expected_row(
                alpha,
                b1,
                b2,
                b1t,
                b2t,
                eps,
                orig_fe.row_at(r as int),
                orig_mom.row_at(r as int),
                orig_var.row_at(r as int),
                lookup_grad(grads.entries@.take(k as int), r),
            ) by {
                if r == fk {
                    assert(lookup_grad(grads.entries@.take(kk), fk) is None);
                    assert(lookup_grad(grads.entries@.take(k as int), fk) == Some(gk));
                    assert(pre_fe.row_at(r as int) == orig_fe.row_at(r as int));
                    assert(pre_mom.row_at(r as int) == orig_mom.row_at(r as int));
                    assert(pre_var.row_at(r as int) == orig_var.row_at(r as int));
                } else {
                    assert(lookup_grad(grads.entries@.take(k as int), r) == lookup_grad(
                        grads.entries@.take(kk),
                        r,
                    ));
                    assert(feature_embeddings.row_at(r as int) == pre_fe.row_at(r as int));
                }
            }
        }
    }
    proof {
        assert(grads.entries@.take(n_entries as int) =~= grads.entries@);
    }
    (mom, var)
}

} // verus!
