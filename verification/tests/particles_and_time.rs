//! Particle lifecycle and the frame clock.

use render_core::fp::SCALE;
use render_core::mat4::Mat4;
use render_core::particles::{ParticleEmitter, ParticleEmitterDesc, PARTICLE_POS_BOUND};
use render_core::timing::{TimeContext, Timer};
use render_core::vec3::Vec3;

fn two_particle_desc() -> ParticleEmitterDesc {
    ParticleEmitterDesc {
        spawn_count: 2,
        // One batch per second.
        spawn_rate: SCALE,
        spawn_positions: vec![Vec3 { x: 0, y: 0, z: 0 }, Vec3 { x: 100_000, y: 0, z: 0 }],
        spawn_scales: vec![SCALE, SCALE],
        spawn_rotations: vec![[0, 0, 0, SCALE], [0, 0, 0, SCALE]],
        // One world unit per second along x.
        spawn_velocities: vec![Vec3 { x: 100_000, y: 0, z: 0 }, Vec3 { x: 100_000, y: 0, z: 0 }],
        // Two-second lifetime.
        spawn_lifetimes: vec![200_000, 200_000],
        spawn_alphas: vec![SCALE, SCALE],
        spawn_billboards: vec![1, 1],
    }
}

#[test]
fn spawned_particles_live_and_move_then_expire() {
    let mut emitter = ParticleEmitter::new(two_particle_desc(), 16);
    let id = Mat4::identity();
    // One second: one batch of two spawns, each advanced by one second.
    emitter.update(100_000, &id);
    assert_eq!(emitter.instances.len(), 2);
    assert_eq!(emitter.instances[0].position.x, 100_000);
    assert_eq!(emitter.instances[1].position.x, 200_000);
    assert_eq!(emitter.instances[0].lifetime, 100_000);
    // Half a second: no new batch, both alive, positions advanced by
    // velocity * elapsed.
    emitter.update(50_000, &id);
    assert_eq!(emitter.instances.len(), 2);
    assert_eq!(emitter.instances[0].position.x, 150_000);
    assert_eq!(emitter.instances[0].lifetime, 50_000);
    // Another half second: the remaining lifetime runs out, so the first
    // batch dies; the accumulated second spawns a fresh batch that is itself
    // advanced by the half second.
    emitter.update(50_000, &id);
    assert_eq!(emitter.instances.len(), 2);
    assert_eq!(emitter.instances[0].position.x, 50_000);
    assert_eq!(emitter.instances[0].lifetime, 150_000);
}

#[test]
fn emitter_respects_its_instance_capacity() {
    let mut desc = two_particle_desc();
    // Long-lived particles, so the capacity is what limits them.
    desc.spawn_lifetimes = vec![1_000_000, 1_000_000];
    let mut emitter = ParticleEmitter::new(desc, 3);
    let id = Mat4::identity();
    // Two whole intervals in one update: two batches of two, capped at 3.
    emitter.update(200_000, &id);
    assert_eq!(emitter.instances.len(), 3);
    assert_eq!(emitter.time_since_last_spawn, 0);
}

#[test]
fn spawn_positions_go_through_the_emitter_transform() {
    let mut emitter = ParticleEmitter::new(two_particle_desc(), 16);
    let mut t = Mat4::identity();
    t.m13 = 500_000;
    // Spawn a batch but advance by a full second.
    emitter.update(100_000, &t);
    assert_eq!(emitter.instances[0].position.y, 500_000);
}

#[test]
fn particle_positions_saturate_at_the_world_range() {
    let mut desc = two_particle_desc();
    // Fast enough to push past the world range in one second.
    desc.spawn_velocities = vec![
        Vec3 { x: 1_000_000_000, y: 0, z: 0 },
        Vec3 { x: 1_000_000_000, y: 0, z: 0 },
    ];
    let mut emitter = ParticleEmitter::new(desc, 16);
    let id = Mat4::identity();
    emitter.update(100_000, &id);
    // 10000 world units in one second, saturated at the world range.
    assert_eq!(emitter.instances[0].position.x, PARTICLE_POS_BOUND);
}

#[test]
fn timer_fires_exactly_at_its_alarm() {
    let mut timer = Timer::new(100_000);
    timer.update(60_000);
    assert!(!timer.finished);
    assert_eq!(timer.current, 60_000);
    timer.update(40_000);
    assert!(timer.finished);
    assert_eq!(timer.current, 0);
}

#[test]
fn clock_snaps_deltas_and_accumulates_duration() {
    let mut time = TimeContext::new(1_666);
    // 16.66 ms measured: snapped to the sixty-per-second frame length.
    time.update(1_667);
    assert_eq!(time.delta, 1_666);
    assert_eq!(time.duration, 1_666);
    // An ordinary delta passes through unchanged.
    time.update(2_500);
    assert_eq!(time.delta, 2_500);
    assert_eq!(time.duration, 4_166);
}

#[test]
fn clock_runs_registered_timers() {
    let mut time = TimeContext::new(1_666);
    time.add_timer(42, 3_000);
    time.update(2_500);
    assert!(!time.timers[0].1.finished);
    assert_eq!(time.timers[0].1.current, 2_500);
    time.update(2_500);
    assert!(time.timers[0].1.finished);
    assert_eq!(time.timers[0].1.current, 0);
}

#[test]
fn redraw_clock_accumulates() {
    let mut time = TimeContext::new(1_666);
    time.update_redraw(833);
    time.update_redraw(834);
    assert_eq!(time.redraw_delta, 833);
    assert_eq!(time.redraw_accumulator, 1_666);
}
