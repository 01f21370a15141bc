//! Particle emitters: a spawn descriptor and a bounded list of live
//! instances. Each update spawns whole batches at the configured rate,
//! advances every instance by its velocity, ages it, and destroys it once
//! its lifetime runs out.

use vstd::prelude::*;

use crate::fp::{FP_BOUND, SCALE, div_i64, fits_fp, fmul, iabs, mul_fp, tdiv};
use crate::mat4::{Mat4, affine_within, transform_affine_spec};
use crate::vec3::{Vec3, vec_within};

verus! {

/// Particle positions saturate at this magnitude, half the fixed-point
/// working range, so advancing them can never overflow.
pub const PARTICLE_POS_BOUND: i64 = 500000000;

/// Magnitude bound on spawn positions in emitter space.
pub const SPAWN_POS_BOUND: i64 = 10000000;

/// One live particle.
#[derive(Clone, Copy, Debug)]
pub struct ParticleInstance {
    pub spawn_index: usize,
    pub position: Vec3,
    pub scale: i64,
    pub rotation: [i64; 4],
    pub velocity: Vec3,
    pub lifetime: i64,
    pub alpha: i64,
    pub billboard: u32,
}

/// What an emitter spawns: batch size, spawn rate per second, and the
/// per-particle attribute arrays indexed by position in the batch.
#[derive(Clone, Debug)]
pub struct ParticleEmitterDesc {
    pub spawn_count: usize,
    pub spawn_rate: i64,
    pub spawn_positions: Vec<Vec3>,
    pub spawn_scales: Vec<i64>,
    pub spawn_rotations: Vec<[i64; 4]>,
    pub spawn_velocities: Vec<Vec3>,
    pub spawn_lifetimes: Vec<i64>,
    pub spawn_alphas: Vec<i64>,
    pub spawn_billboards: Vec<u32>,
}

/// A particle emitter: its descriptor, the live instances, the instance
/// capacity, and the time accumulated toward the next spawn batch.
#[derive(Clone, Debug)]
pub struct ParticleEmitter {
    pub desc: ParticleEmitterDesc,
    pub instances: Vec<ParticleInstance>,
    pub max_instances: usize,
    pub time_since_last_spawn: i64,
}

/// A usable spawn descriptor: every attribute array covers the batch, the
/// rate is positive and at most one spawn per quantum, and the spawn
/// attributes are in range.
pub open spec fn desc_wf(d: ParticleEmitterDesc) -> bool {
    &&& d.spawn_count <= d.spawn_positions@.len()
    &&& d.spawn_count <= d.spawn_scales@.len()
    &&& d.spawn_count <= d.spawn_rotations@.len()
    &&& d.spawn_count <= d.spawn_velocities@.len()
    &&& d.spawn_count <= d.spawn_lifetimes@.len()
    &&& d.spawn_count <= d.spawn_alphas@.len()
    &&& d.spawn_count <= d.spawn_billboards@.len()
    &&& 0 < d.spawn_rate <= SCALE as int * SCALE as int
    &&& forall|k: int|
        0 <= k < d.spawn_count ==> vec_within(#[trigger] d.spawn_positions@[k], SPAWN_POS_BOUND as int)
    &&& forall|k: int|
        0 <= k < d.spawn_count ==> vec_within(#[trigger] d.spawn_velocities@[k], FP_BOUND as int)
    &&& forall|k: int|
        0 <= k < d.spawn_count ==> iabs(#[trigger] d.spawn_lifetimes@[k] as int) <= SCALE as int
            * SCALE as int
}

/// A live instance the updater can advance without overflow: bounded
/// position and velocity, and a positive bounded remaining lifetime.
pub open spec fn instance_fits(p: ParticleInstance) -> bool {
    &&& vec_within(p.position, PARTICLE_POS_BOUND as int)
    &&& vec_within(p.velocity, FP_BOUND as int)
    &&& 0 < p.lifetime <= SCALE as int * SCALE as int
}

/// Emitter well-formedness: a usable descriptor, bounded live instances, and
/// a bounded non-negative spawn accumulator.
pub open spec fn emitter_wf(e: ParticleEmitter) -> bool {
    &&& desc_wf(e.desc)
    &&& 0 <= e.time_since_last_spawn <= SCALE as int * SCALE as int
    &&& e.instances@.len() <= e.max_instances
    &&& forall|k: int| 0 <= k < e.instances@.len() ==> instance_fits(#[trigger] e.instances@[k])
}

/// Seconds between spawn batches: the reciprocal of the spawn rate.
pub open spec fn spawn_interval_spec(d: ParticleEmitterDesc) -> int {
    tdiv(SCALE as int * SCALE as int, d.spawn_rate as int)
}

/// Saturate a coordinate at the particle world range.
pub open spec fn clamp_pos(x: int) -> int {
    if x > PARTICLE_POS_BOUND as int {
        PARTICLE_POS_BOUND as int
    } else if x < -PARTICLE_POS_BOUND as int {
        -PARTICLE_POS_BOUND as int
    } else {
        x
    }
}

/// One instance after `delta` has elapsed: the position moves by
/// `velocity * delta` (saturating at the world range) and the lifetime
/// shrinks by `delta`.
pub open spec fn advanced_instance(p: ParticleInstance, delta: int) -> ParticleInstance {
    ParticleInstance {
        position: Vec3 {
            x: clamp_pos(p.position.x + fmul(p.velocity.x as int, delta)) as i64,
            y: clamp_pos(p.position.y + fmul(p.velocity.y as int, delta)) as i64,
            z: clamp_pos(p.position.z + fmul(p.velocity.z as int, delta)) as i64,
        },
        lifetime: (p.lifetime - delta) as i64,
        ..p
    }
}

/// Advance every instance by `delta` and drop the expired ones, keeping
/// order.
pub open spec fn advance_and_cull(s: Seq<ParticleInstance>, delta: int) -> Seq<ParticleInstance>
    decreases s.len(),
{
    if s.len() == 0 {
        Seq::empty()
    } else {
        let prefix = advance_and_cull(s.drop_last(), delta);
        let moved = advanced_instance(s.last(), delta);
        if moved.lifetime > 0 {
            prefix.push(moved)
        } else {
            prefix
        }
    }
}

/// The instance spawned from batch slot `k`, placed through the emitter's
/// world transform.
pub open spec fn spawn_instance(d: ParticleEmitterDesc, m: Mat4, k: int) -> ParticleInstance {
    ParticleInstance {
        spawn_index: k as usize,
        position: transform_affine_spec(m, d.spawn_positions@[k]),
        scale: d.spawn_scales@[k],
        rotation: d.spawn_rotations@[k],
        velocity: d.spawn_velocities@[k],
        lifetime: d.spawn_lifetimes@[k],
        alpha: d.spawn_alphas@[k],
        billboard: d.spawn_billboards@[k],
    }
}

/// The instances after spawning the first `k` slots of one batch onto `s`,
/// stopping silently at the capacity.
pub open spec fn spawn_batch(
    s: Seq<ParticleInstance>,
    d: ParticleEmitterDesc,
    m: Mat4,
    k: int,
    max: int,
) -> Seq<ParticleInstance>
    decreases k,
{
    if k <= 0 {
        s
    } else {
        let prev = spawn_batch(s, d, m, k - 1, max);
        if prev.len() < max {
            prev.push(spawn_instance(d, m, k - 1))
        } else {
            prev
        }
    }
}

/// The instances after `n` whole spawn batches.
pub open spec fn spawn_batches(
    s: Seq<ParticleInstance>,
    d: ParticleEmitterDesc,
    m: Mat4,
    n: int,
    max: int,
) -> Seq<ParticleInstance>
    decreases n,
{
    if n <= 0 {
        s
    } else {
        spawn_batch(spawn_batches(s, d, m, n - 1, max), d, m, d.spawn_count as int, max)
    }
}

/// Advancing time by at least every instance's lifetime leaves no live
/// instance.
pub proof fn lemma_particles_all_expire(s: Seq<ParticleInstance>, delta: int)
    requires
        0 <= delta <= SCALE as int * SCALE as int,
        forall|k: int|
            0 <= k < s.len() ==> iabs((#[trigger] s[k]).lifetime as int) <= SCALE as int
                * SCALE as int,
        forall|k: int| 0 <= k < s.len() ==> (#[trigger] s[k]).lifetime <= delta,
    ensures
        advance_and_cull(s, delta).len() == 0,
    decreases s.len(),
{
    if s.len() > 0 {
        assert forall|k: int| 0 <= k < s.drop_last().len() implies (#[trigger] s.drop_last()[k]).lifetime
            <= delta by {
            assert(s.drop_last()[k] == s[k]);
        }
        assert forall|k: int| 0 <= k < s.drop_last().len() implies iabs(
            (#[trigger] s.drop_last()[k]).lifetime as int,
        ) <= SCALE as int * SCALE as int by {
            assert(s.drop_last()[k] == s[k]);
        }
        lemma_particles_all_expire(s.drop_last(), delta);
        assert(s.last() == s[s.len() - 1]);
        assert(s[s.len() - 1].lifetime <= delta);
        assert(advanced_instance(s.last(), delta).lifetime <= 0);
    }
}

/// Advancing time by less than every instance's lifetime keeps each one, in
/// order, with its position moved by `velocity * delta` and its lifetime
/// shortened by `delta`.
pub proof fn lemma_particles_all_survive(s: Seq<ParticleInstance>, delta: int)
    requires
        0 <= delta <= SCALE as int * SCALE as int,
        forall|k: int|
            0 <= k < s.len() ==> iabs((#[trigger] s[k]).lifetime as int) <= SCALE as int
                * SCALE as int,
        forall|k: int| 0 <= k < s.len() ==> (#[trigger] s[k]).lifetime > delta,
    ensures
        advance_and_cull(s, delta).len() == s.len(),
        forall|k: int|
            0 <= k < s.len() ==> #[trigger] advance_and_cull(s, delta)[k] == advanced_instance(
                s[k],
                delta,
            ),
    decreases s.len(),
{
    if s.len() > 0 {
        assert forall|k: int| 0 <= k < s.drop_last().len() implies (#[trigger] s.drop_last()[k]).lifetime
            > delta by {
            assert(s.drop_last()[k] == s[k]);
        }
        assert forall|k: int| 0 <= k < s.drop_last().len() implies iabs(
            (#[trigger] s.drop_last()[k]).lifetime as int,
        ) <= SCALE as int * SCALE as int by {
            assert(s.drop_last()[k] == s[k]);
        }
        lemma_particles_all_survive(s.drop_last(), delta);
        assert(s.last() == s[s.len() - 1]);
        assert(s[s.len() - 1].lifetime > delta);
        assert(advanced_instance(s.last(), delta).lifetime > 0);
        assert forall|k: int| 0 <= k < s.len() implies #[trigger] advance_and_cull(s, delta)[k]
            == advanced_instance(s[k], delta) by {
            if k < s.len() - 1 {
                assert(advance_and_cull(s.drop_last(), delta)[k] == advanced_instance(
                    s.drop_last()[k],
                    delta,
                ));
                assert(s.drop_last()[k] == s[k]);
            } else {
                let prefix = advance_and_cull(s.drop_last(), delta);
                assert(advance_and_cull(s, delta) == prefix.push(advanced_instance(s.last(), delta)));
                assert(advance_and_cull(s, delta)[prefix.len() as int] == advanced_instance(
                    s.last(),
                    delta,
                ));
            }
        }
    }
}

/// Saturate a coordinate at the particle world range.
fn clamp_coordinate(x: i64) -> (r: i64)
    ensures
        r == clamp_pos(x as int),
{
    if x > PARTICLE_POS_BOUND {
        PARTICLE_POS_BOUND
    } else if x < -PARTICLE_POS_BOUND {
        -PARTICLE_POS_BOUND
    } else {
        x
    }
}

impl ParticleEmitter {
    /// A new emitter with no live instances.
    pub fn new(desc: ParticleEmitterDesc, max_instances: usize) -> (r: ParticleEmitter)
        requires
            desc_wf(desc),
        ensures
            emitter_wf(r),
            r.desc == desc,
            r.max_instances == max_instances,
            r.instances@.len() == 0,
            r.time_since_last_spawn == 0,
    {
        ParticleEmitter { desc, instances: Vec::new(), max_instances, time_since_last_spawn: 0 }
    }

    /// Advance the emitter by `delta`: spawn one batch per whole spawn
    /// interval accumulated, move every instance by its velocity, age it,
    /// and destroy the expired ones.
    #[verifier::rlimit(100)]
    pub fn update(&mut self, delta: i64, global_transform: &Mat4)
        requires
            emitter_wf(*old(self)),
            affine_within(*global_transform),
            0 <= delta <= FP_BOUND,
        ensures
            emitter_wf(*final(self)),
            final(self).desc == old(self).desc,
            final(self).max_instances == old(self).max_instances,
            final(self).time_since_last_spawn == (old(self).time_since_last_spawn + delta)
                % spawn_interval_spec(old(self).desc),
            final(self).instances@ == advance_and_cull(
                spawn_batches(
                    old(self).instances@,
                    old(self).desc,
                    *global_transform,
                    (old(self).time_since_last_spawn + delta) / spawn_interval_spec(old(self).desc),
                    old(self).max_instances as int,
                ),
                delta as int,
            ),
    {
        let ghost d = self.desc;
        let ghost m = *global_transform;
        let ghost max = self.max_instances as int;
        let ghost base = self.instances@;
        let ghost total = self.time_since_last_spawn + delta;
        self.time_since_last_spawn = self.time_since_last_spawn + delta;
        let spawn_interval: i64 = div_i64(SCALE * SCALE, self.desc.spawn_rate);
        proof {
            crate::fp::lemma_tdiv_bound(SCALE as int * SCALE as int, self.desc.spawn_rate as int);
            vstd::arithmetic::div_mod::lemma_div_is_ordered(
                self.desc.spawn_rate as int,
                SCALE as int * SCALE as int,
                self.desc.spawn_rate as int,
            );
            vstd::arithmetic::div_mod::lemma_div_by_self(self.desc.spawn_rate as int);
            assert(spawn_interval >= 1);
            assert(spawn_interval == spawn_interval_spec(d));
        }
        let ghost mut batches_done: int = 0;
        while self.time_since_last_spawn >= spawn_interval
            invariant
                spawn_interval == spawn_interval_spec(d),
                1 <= spawn_interval <= SCALE as int * SCALE as int,
                self.desc == d,
                self.max_instances as int == max,
                affine_within(m),
                *global_transform == m,
                desc_wf(d),
                batches_done >= 0,
                self.time_since_last_spawn == total - batches_done * spawn_interval,
                self.time_since_last_spawn >= 0,
                self.instances@ == spawn_batches(base, d, m, batches_done, max),
                self.instances@.len() <= max,
                forall|k: int|
                    0 <= k < self.instances@.len() ==> spawned_fits(#[trigger] self.instances@[k]),
            decreases self.time_since_last_spawn,
        {
            self.time_since_last_spawn = self.time_since_last_spawn - spawn_interval;
            let ghost batch_base = self.instances@;
            let mut spawn_index: usize = 0;
            while spawn_index < self.desc.spawn_count
                invariant
                    0 <= spawn_index <= self.desc.spawn_count,
                    self.desc == d,
                    self.max_instances as int == max,
                    affine_within(m),
                    *global_transform == m,
                    desc_wf(d),
                    spawn_interval == spawn_interval_spec(d),
                    1 <= spawn_interval <= SCALE as int * SCALE as int,
                    batches_done >= 0,
                    batch_base == spawn_batches(base, d, m, batches_done, max),
                    self.time_since_last_spawn == total - batches_done * spawn_interval
                        - spawn_interval,
                    self.time_since_last_spawn >= 0,
                    self.instances@ == spawn_batch(batch_base, d, m, spawn_index as int, max),
                    self.instances@.len() <= max,
                    forall|k: int|
                        0 <= k < self.instances@.len() ==> spawned_fits(
                            #[trigger] self.instances@[k],
                        ),
                decreases self.desc.spawn_count - spawn_index,
            {
                if self.instances.len() < self.max_instances {
                    proof {
                        crate::mat4::lemma_transform_rows_within(
                            m,
                            d.spawn_positions@[spawn_index as int],
                            crate::mat4::LINEAR_BOUND as int,
                            crate::mat4::TRANSLATION_BOUND as int,
                            SPAWN_POS_BOUND as int,
                            PARTICLE_POS_BOUND as int,
                        );
                    }
                    let position = global_transform.transform_point_affine(
                        self.desc.spawn_positions[spawn_index],
                    );
                    let instance = ParticleInstance {
                        spawn_index,
                        position,
                        scale: self.desc.spawn_scales[spawn_index],
                        rotation: self.desc.spawn_rotations[spawn_index],
                        velocity: self.desc.spawn_velocities[spawn_index],
                        lifetime: self.desc.spawn_lifetimes[spawn_index],
                        alpha: self.desc.spawn_alphas[spawn_index],
                        billboard: self.desc.spawn_billboards[spawn_index],
                    };
                    self.instances.push(instance);
                    assert(instance == spawn_instance(d, m, spawn_index as int));
                }
                spawn_index = spawn_index + 1;
            }
            proof {
                assert((batches_done + 1) * spawn_interval == batches_done * spawn_interval
                    + spawn_interval) by (nonlinear_arith);
                batches_done = batches_done + 1;
                assert(self.instances@ == spawn_batches(base, d, m, batches_done, max));
            }
        }
        proof {
            vstd::arithmetic::div_mod::lemma_fundamental_div_mod_converse(
                total,
                spawn_interval as int,
                batches_done,
                self.time_since_last_spawn as int,
            );
        }
        let ghost spawned = self.instances@;
        let mut kept: Vec<ParticleInstance> = Vec::new();
        let mut i: usize = 0;
        while i < self.instances.len()
            invariant
                0 <= i <= self.instances@.len(),
                self.instances@ == spawned,
                kept@ == advance_and_cull(spawned.subrange(0, i as int), delta as int),
                kept@.len() <= i,
                0 <= delta <= FP_BOUND,
                forall|k: int| 0 <= k < spawned.len() ==> spawned_fits(#[trigger] spawned[k]),
                forall|k: int| 0 <= k < kept@.len() ==> instance_fits(#[trigger] kept@[k]),
            decreases self.instances@.len() - i,
        {
            let p = self.instances[i];
            proof {
                crate::vec3::lemma_product_bound(p.velocity.x as int, delta as int);
                crate::vec3::lemma_product_bound(p.velocity.y as int, delta as int);
                crate::vec3::lemma_product_bound(p.velocity.z as int, delta as int);
            }
            let moved = ParticleInstance {
                position: Vec3 {
                    x: clamp_coordinate(p.position.x + mul_fp(p.velocity.x, delta)),
                    y: clamp_coordinate(p.position.y + mul_fp(p.velocity.y, delta)),
                    z: clamp_coordinate(p.position.z + mul_fp(p.velocity.z, delta)),
                },
                lifetime: p.lifetime - delta,
                ..p
            };
            assert(moved == advanced_instance(spawned[i as int], delta as int));
            if moved.lifetime > 0 {
                kept.push(moved);
            }
            proof {
                let sub = spawned.subrange(0, i as int + 1);
                assert(sub.drop_last() =~= spawned.subrange(0, i as int));
                assert(sub.last() == spawned[i as int]);
            }
            i = i + 1;
        }
        proof {
            assert(spawned.subrange(0, spawned.len() as int) =~= spawned);
        }
        self.instances = kept;
    }
}

/// Bounds that hold of an instance as soon as it is spawned, before the
/// first cull: its lifetime may still be non-positive.
pub open spec fn spawned_fits(p: ParticleInstance) -> bool {
    &&& vec_within(p.position, PARTICLE_POS_BOUND as int)
    &&& vec_within(p.velocity, FP_BOUND as int)
    &&& iabs(p.lifetime as int) <= SCALE as int * SCALE as int
}

} // verus!
