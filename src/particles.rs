use vstd::prelude::*;
use crate::geometry::div_floor;
use crate::physics::{within, MAX_STEP_MS};
use crate::random::random_between;

verus! {

/// Largest magnitude of a particle coordinate; motion stops at it.
pub const PARTICLE_POS_LIMIT: i64 = 1_000_000_000_000_000;

/// Largest magnitude of a particle velocity component, and of any variance.
pub const PARTICLE_VEL_LIMIT: i64 = 1_000_000_000;

/// Latest time (milliseconds) that the particle system accepts.
pub const TIME_LIMIT: i64 = 1_000_000_000_000_000;

/// Colour tag of a particle; the renderer picks the actual colour.
#[derive(Debug, Clone, Copy, PartialEq, Eq, Structural)]
pub enum Shade {
    Hull,
    Wound,
    Dust,
    Ember,
    Exhaust,
    Steer,
}

/// A short-lived cosmetic effect. Drag is in thousandths (1000 keeps the velocity),
/// times are in milliseconds.
#[derive(Debug, Clone, Copy)]
pub struct Particle {
    pub position: (i64, i64),
    pub velocity: (i64, i64),
    pub drag: i64,
    pub size: i64,
    pub color: Shade,
    pub birthtime: i64,
    pub deathtime: i64,
}

/// The random offsets applied to one new particle.
#[derive(Debug, Clone, Copy)]
pub struct Jitter {
    pub position: (i64, i64),
    pub velocity: (i64, i64),
    pub size: i64,
    pub age: i64,
}

/// The bounds every stored particle keeps.
pub open spec fn particle_ok(p: Particle) -> bool {
    &&& within(p.position.0 as int, PARTICLE_POS_LIMIT as int)
    &&& within(p.position.1 as int, PARTICLE_POS_LIMIT as int)
    &&& within(p.velocity.0 as int, 2 * PARTICLE_VEL_LIMIT)
    &&& within(p.velocity.1 as int, 2 * PARTICLE_VEL_LIMIT)
    &&& 0 <= p.drag <= 1000
    &&& p.birthtime < p.deathtime
}

/// Whether `p` is shown at time `t`.
pub open spec fn visible(p: Particle, t: int) -> bool {
    p.birthtime <= t < p.deathtime
}

/// The arguments of one emission, each base value with its variance.
#[derive(Debug, Clone, Copy)]
pub struct Emission {
    pub position: (i64, i64),
    pub velocity: (i64, i64),
    pub drag: i64,
    pub size: i64,
    pub color: Shade,
    pub age: i64,
    pub position_variance: (i64, i64),
    pub velocity_variance: (i64, i64),
    pub size_variance: i64,
    pub age_variance: i64,
}

pub open spec fn emission_ok(e: Emission) -> bool {
    &&& within(e.position.0 as int, PARTICLE_POS_LIMIT / 2)
    &&& within(e.position.1 as int, PARTICLE_POS_LIMIT / 2)
    &&& within(e.velocity.0 as int, PARTICLE_VEL_LIMIT as int)
    &&& within(e.velocity.1 as int, PARTICLE_VEL_LIMIT as int)
    &&& 0 <= e.drag <= 1000
    &&& within(e.size as int, PARTICLE_VEL_LIMIT as int)
    &&& 0 <= e.position_variance.0 <= PARTICLE_VEL_LIMIT
    &&& 0 <= e.position_variance.1 <= PARTICLE_VEL_LIMIT
    &&& 0 <= e.velocity_variance.0 <= PARTICLE_VEL_LIMIT
    &&& 0 <= e.velocity_variance.1 <= PARTICLE_VEL_LIMIT
    &&& 0 <= e.size_variance <= PARTICLE_VEL_LIMIT
    &&& 0 <= e.age_variance < e.age <= PARTICLE_VEL_LIMIT
}

/// Whether each offset of `j` lies within the matching variance of `e`.
pub open spec fn jitter_fits(e: Emission, j: Jitter) -> bool {
    &&& within(j.position.0 as int, e.position_variance.0 as int)
    &&& within(j.position.1 as int, e.position_variance.1 as int)
    &&& within(j.velocity.0 as int, e.velocity_variance.0 as int)
    &&& within(j.velocity.1 as int, e.velocity_variance.1 as int)
    &&& within(j.size as int, e.size_variance as int)
    &&& within(j.age as int, e.age_variance as int)
}

/// The particle that emission `e` gives at time `now` with offsets `j`.
pub open spec fn jittered(e: Emission, j: Jitter, now: int) -> Particle {
    Particle {
        position: ((e.position.0 + j.position.0) as i64, (e.position.1 + j.position.1) as i64),
        velocity: ((e.velocity.0 + j.velocity.0) as i64, (e.velocity.1 + j.velocity.1) as i64),
        drag: e.drag,
        size: (e.size + j.size) as i64,
        color: e.color,
        birthtime: now as i64,
        deathtime: (now + e.age + j.age) as i64,
    }
}

/// Whether `p` is a particle that emission `e` can give at time `now`.
pub open spec fn emitted_by(e: Emission, p: Particle, now: int) -> bool {
    exists|j: Jitter| jitter_fits(e, j) && p == jittered(e, j, now)
}

/// `new` is `old` followed by `count` particles of emission `e` at time `now`.
pub open spec fn appended(old: Seq<Particle>, new: Seq<Particle>, e: Emission, count: int, now: int) -> bool {
    &&& new.len() == old.len() + count
    &&& new.subrange(0, old.len() as int) == old
    &&& forall|i: int| old.len() <= i < new.len() ==> emitted_by(e, #[trigger] new[i], now)
}

/// Builds one particle of emission `e` at time `now`, each field its base value plus the
/// matching offset of `j`.
pub fn make_particle(e: &Emission, j: &Jitter, now: i64) -> (p: Particle)
    requires
        emission_ok(*e),
        jitter_fits(*e, *j),
        0 <= now <= TIME_LIMIT,
    ensures
        p == jittered(*e, *j, now as int),
        particle_ok(p),
{
    Particle {
        position: (e.position.0 + j.position.0, e.position.1 + j.position.1),
        velocity: (e.velocity.0 + j.velocity.0, e.velocity.1 + j.velocity.1),
        drag: e.drag,
        size: e.size + j.size,
        color: e.color,
        birthtime: now,
        deathtime: now + e.age + j.age,
    }
}

/// `p` after `dt` milliseconds of motion: it moves by its velocity (stopping at the
/// coordinate limit), then drag scales the velocity.
pub open spec fn advanced(p: Particle, dt: int) -> Particle {
    Particle {
        position: (
            clamp_coord(p.position.0 + p.velocity.0 * dt / 1000) as i64,
            clamp_coord(p.position.1 + p.velocity.1 * dt / 1000) as i64,
        ),
        velocity: ((p.velocity.0 * p.drag / 1000) as i64, (p.velocity.1 * p.drag / 1000) as i64),
        ..p
    }
}

pub open spec fn clamp_coord(v: int) -> int {
    if v > PARTICLE_POS_LIMIT {
        PARTICLE_POS_LIMIT as int
    } else if v < -PARTICLE_POS_LIMIT {
        -PARTICLE_POS_LIMIT
    } else {
        v
    }
}

/// The particles of `s` still alive at `now`, in order.
pub open spec fn survivors(s: Seq<Particle>, now: int) -> Seq<Particle>
    decreases s.len(),
{
    if s.len() == 0 {
        Seq::empty()
    } else if s.last().deathtime > now {
        survivors(s.drop_last(), now).push(s.last())
    } else {
        survivors(s.drop_last(), now)
    }
}

fn move_coord(c: i64, v: i64, dt: i64) -> (r: i64)
    requires
        within(c as int, PARTICLE_POS_LIMIT as int),
        within(v as int, 2 * PARTICLE_VEL_LIMIT),
        0 <= dt <= MAX_STEP_MS,
    ensures
        r == clamp_coord(c + v * dt / 1000),
{
    assert(within(v * dt, 2 * PARTICLE_VEL_LIMIT * MAX_STEP_MS)) by (nonlinear_arith)
        requires within(v as int, 2 * PARTICLE_VEL_LIMIT), 0 <= dt <= MAX_STEP_MS;
    let d: i64 = div_floor(v * dt, 1000);
    proof {
        vstd::arithmetic::div_mod::lemma_fundamental_div_mod(v * dt, 1000);
    }
    let n: i64 = c + d;
    if n > PARTICLE_POS_LIMIT {
        PARTICLE_POS_LIMIT
    } else if n < -PARTICLE_POS_LIMIT {
        -PARTICLE_POS_LIMIT
    } else {
        n
    }
}

fn drag_component(v: i64, drag: i64) -> (r: i64)
    requires
        within(v as int, 2 * PARTICLE_VEL_LIMIT),
        0 <= drag <= 1000,
    ensures
        r == v * drag / 1000,
        within(r as int, 2 * PARTICLE_VEL_LIMIT),
{
    assert(within(v * drag, 2 * PARTICLE_VEL_LIMIT * 1000)) by (nonlinear_arith)
        requires within(v as int, 2 * PARTICLE_VEL_LIMIT), 0 <= drag <= 1000;
    let r: i64 = div_floor(v * drag, 1000);
    proof {
        vstd::arithmetic::div_mod::lemma_fundamental_div_mod(v * drag, 1000);
        assert(within(r as int, 2 * PARTICLE_VEL_LIMIT)) by (nonlinear_arith)
            requires
                v * drag == 1000 * r + (v * drag) % 1000,
                0 <= (v * drag) % 1000 < 1000,
                within(v as int, 2 * PARTICLE_VEL_LIMIT),
                0 <= drag <= 1000,
        ;
    }
    r
}

/// Moves `p` for `dt` milliseconds and applies its drag.
pub fn advance_particle(p: Particle, dt: i64) -> (r: Particle)
    requires
        particle_ok(p),
        0 <= dt <= MAX_STEP_MS,
    ensures
        r == advanced(p, dt as int),
        particle_ok(r),
{
    Particle {
        position: (move_coord(p.position.0, p.velocity.0, dt), move_coord(p.position.1, p.velocity.1, dt)),
        velocity: (drag_component(p.velocity.0, p.drag), drag_component(p.velocity.1, p.drag)),
        ..p
    }
}

/// The store of live particles, independent of the entity store.
#[derive(Debug, Clone)]
pub struct ParticleStorage {
    pub particles_container: Vec<Particle>,
}

impl ParticleStorage {
    pub open spec fn wf(&self) -> bool {
        forall|i: int| 0 <= i < self.particles_container.len() ==> particle_ok(#[trigger] self.particles_container[i])
    }

    /// An empty store.
    pub fn new() -> (r: ParticleStorage)
        ensures
            r.particles_container@.len() == 0,
            r.wf(),
    {
        ParticleStorage { particles_container: Vec::new() }
    }

    /// Appends the particle of emission `e` with offsets `j` at time `now`.
    pub fn emit_with(&mut self, e: &Emission, j: &Jitter, now: i64)
        requires
            old(self).wf(),
            emission_ok(*e),
            jitter_fits(*e, *j),
            0 <= now <= TIME_LIMIT,
        ensures
            final(self).particles_container@ == old(self).particles_container@.push(jittered(*e, *j, now as int)),
            final(self).wf(),
    {
        let p = make_particle(e, j, now);
        self.particles_container.push(p);
    }

    /// Emits `count` particles of `e` at time `now`, each field offset by a random amount
    /// within its variance. A count below one emits nothing.
    pub fn create_particle(&mut self, count: i32, e: &Emission, now: i64)
        requires
            old(self).wf(),
            emission_ok(*e),
            0 <= now <= TIME_LIMIT,
        ensures
            final(self).wf(),
            appended(old(self).particles_container@, final(self).particles_container@, *e, if count > 0 { count as int } else { 0 }, now as int),
    {
        let ghost start = self.particles_container@;
        let mut k: i32 = 0;
        while k < count
            invariant
                self.wf(),
                emission_ok(*e),
                0 <= now <= TIME_LIMIT,
                0 <= k,
                count > 0 ==> k <= count,
                count <= 0 ==> k == 0,
                self.particles_container@.len() == start.len() + k,
                self.particles_container@.subrange(0, start.len() as int) == start,
                forall|i: int| start.len() <= i < self.particles_container@.len() ==>
                    emitted_by(*e, #[trigger] self.particles_container@[i], now as int),
            decreases count - k,
        {
            let j = Jitter {
                position: (
                    random_between(-e.position_variance.0, e.position_variance.0),
                    random_between(-e.position_variance.1, e.position_variance.1),
                ),
                velocity: (
                    random_between(-e.velocity_variance.0, e.velocity_variance.0),
                    random_between(-e.velocity_variance.1, e.velocity_variance.1),
                ),
                size: random_between(-e.size_variance, e.size_variance),
                age: random_between(-e.age_variance, e.age_variance),
            };
            let ghost before = self.particles_container@;
            self.emit_with(e, &j, now);
            assert(self.particles_container@[before.len() as int] == jittered(*e, j, now as int));
            assert(jitter_fits(*e, j) && self.particles_container@[before.len() as int] == jittered(*e, j, now as int));
            assert(emitted_by(*e, self.particles_container@[before.len() as int], now as int));
            assert(forall|i: int| start.len() <= i < before.len() ==> self.particles_container@[i] == before[i]);
            assert(self.particles_container@.subrange(0, start.len() as int) =~= start) by {
                assert(before.subrange(0, start.len() as int) == start);
            }
            k = k + 1;
        }
    }

    /// Advances every particle by `dt` milliseconds, then drops those whose death time is
    /// not after `now`.
    pub fn update(&mut self, dt: i64, now: i64)
        requires
            old(self).wf(),
            0 <= dt <= MAX_STEP_MS,
        ensures
            final(self).wf(),
            final(self).particles_container@ == survivors(
                old(self).particles_container@.map_values(|p: Particle| advanced(p, dt as int)),
                now as int,
            ),
    {
        let ghost moved = self.particles_container@.map_values(|p: Particle| advanced(p, dt as int));
        let mut kept: Vec<Particle> = Vec::new();
        let mut i: usize = 0;
        while i < self.particles_container.len()
            invariant
                self.wf(),
                0 <= dt <= MAX_STEP_MS,
                i <= self.particles_container.len(),
                moved == self.particles_container@.map_values(|p: Particle| advanced(p, dt as int)),
                kept@ == survivors(moved.take(i as int), now as int),
                forall|k: int| 0 <= k < kept.len() ==> particle_ok(#[trigger] kept[k]),
            decreases self.particles_container.len() - i,
        {
            let p = advance_particle(self.particles_container[i], dt);
            assert(moved.take(i as int + 1).drop_last() == moved.take(i as int));
            assert(moved.take(i as int + 1).last() == p);
            if p.deathtime > now {
                kept.push(p);
            }
            i = i + 1;
        }
        assert(moved.take(moved.len() as int) == moved);
        self.particles_container = kept;
    }
}

/// A particle emitted at `t0` with a lifetime of `age` and no lifetime variance is shown
/// exactly for t0 <= t < t0 + age, and an update at any time from t0 + age on removes it.
pub proof fn lemma_particle_lifecycle(e: Emission, j: Jitter, t0: int, t: int, dt: int)
    requires
        emission_ok(e),
        jitter_fits(e, j),
        e.age_variance == 0,
        0 <= t0 <= TIME_LIMIT,
    ensures
        visible(jittered(e, j, t0), t) <==> t0 <= t < t0 + e.age,
        survivors(seq![advanced(jittered(e, j, t0), dt)], t).len() == if t < t0 + e.age { 1int } else { 0 },
{
    let p = advanced(jittered(e, j, t0), dt);
    let s = seq![p];
    assert(j.age == 0);
    assert(p.deathtime == t0 + e.age);
    assert(s.drop_last() =~= Seq::<Particle>::empty());
    assert(s.last() == p);
    assert(survivors(s.drop_last(), t) == Seq::<Particle>::empty());
}

} // verus!
