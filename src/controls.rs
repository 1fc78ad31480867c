use vstd::prelude::*;
use crate::components::{Body, Velocity, FULL_TURN};
use crate::effects::{AudioCue, BoltRequest, Requests, Sound, SHIP_VEL_LIMIT, bolt_ok};
use crate::geometry::{div_floor, magnitude, rotate_point, rotated};
use crate::particles::{Emission, ParticleStorage, Shade, TIME_LIMIT, emitted_by};
use crate::physics::{body_ok, within, MAX_STEP_MS, VEL_LIMIT, POS_LIMIT};
use crate::random::random_u32;

verus! {

/// The player's input for one tick; `fire` is an edge, the others are levels.
#[derive(Debug, Clone, Copy, PartialEq, Eq, Structural)]
pub struct Controls {
    pub thrust: bool,
    pub brake: bool,
    pub turn_left: bool,
    pub turn_right: bool,
    pub fire: bool,
}

/// `x` scaled by `num` thousandths, rounded down.
pub fn scale_thousandths(x: i64, num: i64) -> (r: i64)
    requires
        within(x as int, VEL_LIMIT as int),
        0 <= num <= 1000,
    ensures
        r == x * num / 1000,
        magnitude(r as int) <= magnitude(x as int),
        magnitude(r as int) * 1000 <= magnitude(x as int) * num + 1000,
{
    assert(within(x * num, VEL_LIMIT * 1000)) by (nonlinear_arith)
        requires within(x as int, VEL_LIMIT as int), 0 <= num <= 1000;
    let r = div_floor(x * num, 1000);
    proof {
        vstd::arithmetic::div_mod::lemma_fundamental_div_mod(x * num, 1000);
        let m = (x * num) % 1000;
        if x >= 0 {
            assert(0 <= x * num <= x * 1000) by (nonlinear_arith) requires x >= 0, 0 <= num <= 1000;
            assert(0 <= r <= x);
            assert(r * 1000 <= x * num);
        } else {
            assert(x * 1000 <= x * num <= 0) by (nonlinear_arith) requires x < 0, 0 <= num <= 1000;
            assert(x <= r <= 0);
            assert(-r * 1000 <= -x * num + 1000) by (nonlinear_arith)
                requires
                    x * num == 1000 * r + m,
                    0 <= m < 1000,
            ;
            assert(magnitude(x as int) * num == -x * num) by (nonlinear_arith) requires x < 0, magnitude(x as int) == -x;
        }
    }
    r
}

/// Velocity of a ship with heading `heading` after one control step of `dt` milliseconds:
/// braking scales the velocity by (1 - dt), thrust adds an impulse of 6 units per second
/// along the heading scaled by dt, linear damping keeps 995 thousandths, angular damping
/// 975 thousandths, and turning adds 135 degrees per second scaled by dt.
pub open spec fn steered(v: Velocity, heading: int, c: Controls, dt: int) -> Velocity {
    let keep = if c.brake { 1000 - dt } else { 1000 };
    let imp = rotated(0, -6 * dt, heading);
    let turn = (if c.turn_right { 1int } else { 0 }) - (if c.turn_left { 1int } else { 0 });
    Velocity(
        ((v.0 * keep / 1000) * 995 / 1000 + if c.thrust { imp.0 } else { 0 }) as i64,
        ((v.1 * keep / 1000) * 995 / 1000 + if c.thrust { imp.1 } else { 0 }) as i64,
        ((v.2 * keep / 1000) * 975 / 1000 + 135 * dt * turn) as i64,
    )
}

/// Applies one control step to a ship's velocity.
pub fn steer(v: Velocity, heading: i64, c: &Controls, dt: i64) -> (r: Velocity)
    requires
        within(v.0 as int, VEL_LIMIT as int),
        within(v.1 as int, VEL_LIMIT as int),
        within(v.2 as int, VEL_LIMIT as int),
        0 <= heading < FULL_TURN,
        0 <= dt <= MAX_STEP_MS,
    ensures
        r == steered(v, heading as int, *c, dt as int),
        within(r.0 as int, SHIP_VEL_LIMIT as int),
        within(r.1 as int, SHIP_VEL_LIMIT as int),
        within(r.2 as int, VEL_LIMIT as int),
{
    let keep: i64 = if c.brake { 1000 - dt } else { 1000 };
    let push: i64 = 0 - 6 * dt;
    let imp = rotate_point((0, push), heading);
    let bx = scale_thousandths(v.0, keep);
    let by = scale_thousandths(v.1, keep);
    let bh = scale_thousandths(v.2, keep);
    let dx = scale_thousandths(bx, 995);
    let dy = scale_thousandths(by, 995);
    let dh = scale_thousandths(bh, 975);
    let spin: i64 = 135 * dt;
    let h = if c.turn_right && !c.turn_left {
        dh + spin
    } else if c.turn_left && !c.turn_right {
        dh - spin
    } else {
        dh
    };
    let x = if c.thrust { dx + imp.0 } else { dx };
    let y = if c.thrust { dy + imp.1 } else { dy };
    Velocity(x, y, h)
}

/// The emission of an exhaust particle from local offset `local` of a ship at (x, y) with
/// the given heading: at the rotated offset, moving along it, living `age` milliseconds
/// give or take 200.
pub open spec fn exhaust_at(x: i64, y: i64, heading: i64, local: (i64, i64), color: Shade, age: i64) -> Emission {
    let b = rotated(local.0 as int, local.1 as int, heading as int);
    Emission {
        position: ((x + b.0) as i64, (y + b.1) as i64),
        velocity: (b.0 as i64, b.1 as i64),
        drag: 1000,
        size: 1000,
        color,
        age,
        position_variance: (0, 0),
        velocity_variance: (0, 0),
        size_variance: 0,
        age_variance: 200,
    }
}

/// Whether `p` is an exhaust particle of ship body `b` at time `now` for the held controls:
/// from the tail under thrust, from the right or left side while turning.
pub open spec fn exhaust_of(b: Body, c: Controls, p: crate::particles::Particle, now: int) -> bool {
    let (x, y, h) = (b.position.0, b.position.1, b.position.2);
    ||| c.thrust && emitted_by(exhaust_at(x, y, h, (0i64, 4000i64), Shade::Exhaust, 1000), p, now)
    ||| c.turn_left && emitted_by(exhaust_at(x, y, h, (2000i64, -2000i64), Shade::Steer, 700), p, now)
    ||| c.turn_right && emitted_by(exhaust_at(x, y, h, (-2000i64, -2000i64), Shade::Steer, 700), p, now)
}

/// An exhaust particle from the ship's local offset `local`, rotated by the heading and
/// moving outward along it.
fn exhaust(x: i64, y: i64, heading: i64, local: (i64, i64), color: Shade, age: i64) -> (e: Emission)
    requires
        within(x as int, POS_LIMIT as int),
        within(y as int, POS_LIMIT as int),
        0 <= heading < FULL_TURN,
        within(local.0 as int, 10_000),
        within(local.1 as int, 10_000),
        200 < age <= 10_000,
    ensures
        crate::particles::emission_ok(e),
        e == exhaust_at(x, y, heading, local, color, age),
{
    let b = rotate_point(local, heading);
    Emission {
        position: (x + b.0, y + b.1),
        velocity: b,
        drag: 1000,
        size: 1000,
        color,
        age,
        position_variance: (0, 0),
        velocity_variance: (0, 0),
        size_variance: 0,
        age_variance: 200,
    }
}

/// One control step for the steered ship `b`: its new body, a bullet request on a fire
/// edge (with the ship's position, heading and new velocity), and exhaust particles for
/// thrust and turning.
pub fn control_ship(
    b: Body,
    c: &Controls,
    dt: i64,
    req: &mut Requests,
    particles: &mut ParticleStorage,
    cues: &mut Vec<AudioCue>,
    now: i64,
) -> (r: Body)
    requires
        body_ok(b),
        within(b.position.0 as int, POS_LIMIT / 2),
        within(b.position.1 as int, POS_LIMIT / 2),
        0 <= dt <= MAX_STEP_MS,
        old(req).wf(),
        old(particles).wf(),
        0 <= now <= TIME_LIMIT,
    ensures
        r == (Body { velocity: steered(b.velocity, b.position.2 as int, *c, dt as int), ..b }),
        body_ok(r),
        final(req).bolts@ == old(req).bolts@ + if c.fire {
            seq![BoltRequest { x: b.position.0, y: b.position.1, heading: b.position.2, vx: r.velocity.0, vy: r.velocity.1 }]
        } else {
            Seq::empty()
        },
        final(req).destroy@ == old(req).destroy@,
        final(req).rocks@ == old(req).rocks@,
        final(req).wf(),
        final(particles).wf(),
        final(particles).particles_container@.len() == old(particles).particles_container@.len()
            + (if c.thrust { 1int } else { 0 }) + (if c.turn_left { 1int } else { 0 }) + (if c.turn_right { 1int } else { 0 }),
        final(particles).particles_container@.subrange(0, old(particles).particles_container@.len() as int)
            == old(particles).particles_container@,
        forall|j: int| old(particles).particles_container@.len() <= j < final(particles).particles_container@.len()
            ==> exhaust_of(b, *c, #[trigger] final(particles).particles_container@[j], now as int),
        c.fire ==> final(cues)@.len() == old(cues)@.len() + 1 && final(cues)@.drop_last() == old(cues)@
            && final(cues)@.last().sound == Sound::PlayerShoot && 900 <= final(cues)@.last().pitch < 1000,
        !c.fire ==> final(cues)@ == old(cues)@,
{
    let ghost start_ps = particles.particles_container@;
    let p = b.position;
    let v = steer(b.velocity, p.2, c, dt);
    if c.fire {
        let bolt = BoltRequest { x: p.0, y: p.1, heading: p.2, vx: v.0, vy: v.1 };
        assert(bolt_ok(bolt));
        req.bolts.push(bolt);
        cues.push(AudioCue { sound: Sound::PlayerShoot, pitch: 900 + (random_u32() % 100) as i64 });
    }
    if c.thrust {
        particles.create_particle(1, &exhaust(p.0, p.1, p.2, (0, 4000), Shade::Exhaust, 1000), now);
    }
    let ghost thrust_ps = particles.particles_container@;
    if c.turn_left {
        particles.create_particle(1, &exhaust(p.0, p.1, p.2, (2000, -2000), Shade::Steer, 700), now);
    }
    let ghost left_ps = particles.particles_container@;
    if c.turn_right {
        particles.create_particle(1, &exhaust(p.0, p.1, p.2, (-2000, -2000), Shade::Steer, 700), now);
    }
    let ghost right_ps = particles.particles_container@;
    proof {
        assert(right_ps.len() >= left_ps.len() && left_ps.len() >= thrust_ps.len() && thrust_ps.len() >= start_ps.len());
        assert(right_ps.subrange(0, left_ps.len() as int) == left_ps);
        assert(left_ps.subrange(0, thrust_ps.len() as int) == thrust_ps);
        assert(thrust_ps.subrange(0, start_ps.len() as int) == start_ps);
        assert forall|j: int| 0 <= j < thrust_ps.len() implies right_ps[j] == thrust_ps[j] by {
            assert(right_ps.subrange(0, left_ps.len() as int)[j] == left_ps[j]);
            assert(left_ps.subrange(0, thrust_ps.len() as int)[j] == thrust_ps[j]);
        }
        assert forall|j: int| 0 <= j < left_ps.len() implies right_ps[j] == left_ps[j] by {
            assert(right_ps.subrange(0, left_ps.len() as int)[j] == left_ps[j]);
        }
        assert(right_ps.subrange(0, start_ps.len() as int) =~= start_ps) by {
            assert forall|j: int| 0 <= j < start_ps.len() implies right_ps[j] == start_ps[j] by {
                assert(thrust_ps.subrange(0, start_ps.len() as int)[j] == start_ps[j]);
            }
        }
        assert forall|j: int| start_ps.len() <= j < right_ps.len() implies exhaust_of(b, *c, #[trigger] right_ps[j], now as int) by {
            if j < thrust_ps.len() {
                assert(right_ps[j] == thrust_ps[j]);
            } else if j < left_ps.len() {
                assert(right_ps[j] == left_ps[j]);
            }
        }
    }
    assert(req.bolts@ =~= old(req).bolts@ + if c.fire {
        seq![BoltRequest { x: b.position.0, y: b.position.1, heading: b.position.2, vx: v.0, vy: v.1 }]
    } else {
        Seq::empty()
    });
    Body { velocity: v, ..b }
}

} // verus!
