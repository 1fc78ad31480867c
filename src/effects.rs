use vstd::prelude::*;
use crate::collision::{Hit, SnapEntry, entry_ok, hit_ok, hit_of, meets};
use crate::components::Body;
use crate::components::{CollidableType, UNIT};
use crate::game::{GameState, after_damage, after_score};
use crate::geometry::{rotate_point, rotated};
use crate::particles::{Emission, ParticleStorage, Shade, TIME_LIMIT};
use crate::physics::{within, POS_LIMIT, RADIUS_LIMIT, VEL_LIMIT, FULL_TURN_DEGREES};
use crate::random::random_u32;

verus! {

/// Asteroids fragment only when their radius is above this (thousandths of a unit).
pub const FRAGMENT_MIN_RADIUS: i64 = 3000;

/// A queued asteroid creation.
#[derive(Debug, Clone, Copy, PartialEq, Eq, Structural)]
pub struct RockRequest {
    pub x: i64,
    pub y: i64,
    pub radius: i64,
}

/// A queued bullet creation: the firing ship's position, heading and velocity.
#[derive(Debug, Clone, Copy, PartialEq, Eq, Structural)]
pub struct BoltRequest {
    pub x: i64,
    pub y: i64,
    pub heading: i64,
    pub vx: i64,
    pub vy: i64,
}

/// Sounds that the simulation asks an audio player for.
#[derive(Debug, Clone, Copy, PartialEq, Eq, Structural)]
pub enum Sound {
    PlayerSpawn,
    PlayerDeathByAsteroid,
    PlayerDeathByBullet,
    PlayerShoot,
    AsteroidExplode,
}

/// A sound with a suggested playback speed in thousandths.
#[derive(Debug, Clone, Copy, PartialEq, Eq, Structural)]
pub struct AudioCue {
    pub sound: Sound,
    pub pitch: i64,
}

/// Destroy and create requests gathered during a pass and applied after it.
#[derive(Debug, Clone)]
pub struct Requests {
    pub destroy: Vec<u64>,
    pub rocks: Vec<RockRequest>,
    pub bolts: Vec<BoltRequest>,
}

pub open spec fn rock_ok(r: RockRequest) -> bool {
    within(r.x as int, POS_LIMIT as int) && within(r.y as int, POS_LIMIT as int) && 0 < r.radius <= RADIUS_LIMIT
}

/// Largest velocity component of a firing ship.
pub const SHIP_VEL_LIMIT: i64 = VEL_LIMIT - 1_000_000;

pub open spec fn bolt_ok(b: BoltRequest) -> bool {
    &&& within(b.x as int, POS_LIMIT / 2)
    &&& within(b.y as int, POS_LIMIT / 2)
    &&& 0 <= b.heading < crate::components::FULL_TURN
    &&& within(b.vx as int, SHIP_VEL_LIMIT as int)
    &&& within(b.vy as int, SHIP_VEL_LIMIT as int)
}

impl Requests {
    pub open spec fn wf(&self) -> bool {
        &&& forall|i: int| 0 <= i < self.rocks.len() ==> rock_ok(#[trigger] self.rocks[i])
        &&& forall|i: int| 0 <= i < self.bolts.len() ==> bolt_ok(#[trigger] self.bolts[i])
    }

    /// Empty queues.
    pub fn new() -> (r: Requests)
        ensures
            r.destroy@.len() == 0,
            r.rocks@.len() == 0,
            r.bolts@.len() == 0,
            r.wf(),
    {
        Requests { destroy: Vec::new(), rocks: Vec::new(), bolts: Vec::new() }
    }
}

/// The two fragments of an asteroid of the given radius at (x, y), split along `angle`
/// whole degrees; none at or below the fragmentation threshold.
pub open spec fn fragments(x: int, y: int, radius: int, angle: int) -> Seq<RockRequest> {
    if radius > FRAGMENT_MIN_RADIUS {
        let o = rotated(radius, 0, angle * 1000);
        seq![
            RockRequest { x: (x + o.0) as i64, y: (y + o.1) as i64, radius: (radius - UNIT) as i64 },
            RockRequest { x: (x - o.0) as i64, y: (y - o.1) as i64, radius: (radius - UNIT) as i64 },
        ]
    } else {
        Seq::empty()
    }
}

/// Queues the fragments of an asteroid hit by a bullet.
pub fn fragment(rocks: &mut Vec<RockRequest>, x: i64, y: i64, radius: i64, angle: i64)
    requires
        within(x as int, POS_LIMIT / 2),
        within(y as int, POS_LIMIT / 2),
        0 < radius <= RADIUS_LIMIT,
        0 <= angle < FULL_TURN_DEGREES,
    ensures
        final(rocks)@ == old(rocks)@ + fragments(x as int, y as int, radius as int, angle as int),
{
    if radius > FRAGMENT_MIN_RADIUS {
        let o = rotate_point((radius, 0), angle * 1000);
        rocks.push(RockRequest { x: x + o.0, y: y + o.1, radius: radius - UNIT });
        rocks.push(RockRequest { x: x - o.0, y: y - o.1, radius: radius - UNIT });
    }
    assert(rocks@ =~= old(rocks)@ + fragments(x as int, y as int, radius as int, angle as int));
}

/// The game state after hit `h`.
pub open spec fn hit_game(h: Hit, g: GameState) -> GameState {
    match h {
        Hit::Damaged { .. } => after_damage(g),
        Hit::Shattered { .. } => after_score(g),
        Hit::Spent { .. } => g,
    }
}

/// The destroy requests of hit `h` on game state `g`: a damaged player only once it has
/// no lives left; a hit asteroid or bullet always.
pub open spec fn hit_destroys(h: Hit, g: GameState) -> Seq<u64> {
    match h {
        Hit::Damaged { id, .. } => if after_damage(g).lives == 0 { seq![id] } else { Seq::empty() },
        Hit::Shattered { id, .. } => seq![id],
        Hit::Spent { id, .. } => seq![id],
    }
}

/// The asteroid creations of hit `h`, split along `angle`.
pub open spec fn hit_rocks(h: Hit, angle: int) -> Seq<RockRequest> {
    match h {
        Hit::Shattered { x, y, radius, .. } => fragments(x as int, y as int, radius as int, angle),
        _ => Seq::empty(),
    }
}

/// The game state after the hits `hs` in order.
pub open spec fn game_after(hs: Seq<Hit>, g: GameState) -> GameState
    decreases hs.len(),
{
    if hs.len() == 0 {
        g
    } else {
        hit_game(hs.last(), game_after(hs.drop_last(), g))
    }
}

/// Hits never touch the spawn cooldown.
pub proof fn lemma_game_after_keeps_cooldown(hs: Seq<Hit>, g: GameState)
    ensures
        game_after(hs, g).asteroid_cooldown == g.asteroid_cooldown,
    decreases hs.len(),
{
    if hs.len() > 0 {
        lemma_game_after_keeps_cooldown(hs.drop_last(), g);
    }
}

/// The destroy requests of the hits `hs` in order.
pub open spec fn destroys_after(hs: Seq<Hit>, g: GameState) -> Seq<u64>
    decreases hs.len(),
{
    if hs.len() == 0 {
        Seq::empty()
    } else {
        destroys_after(hs.drop_last(), g) + hit_destroys(hs.last(), game_after(hs.drop_last(), g))
    }
}

/// The asteroid creations of the hits `hs`, the i-th split along `angles[i]`.
pub open spec fn rocks_after(hs: Seq<Hit>, angles: Seq<int>) -> Seq<RockRequest>
    decreases hs.len(),
{
    if hs.len() == 0 {
        Seq::empty()
    } else {
        rocks_after(hs.drop_last(), angles.drop_last()) + hit_rocks(hs.last(), angles.last())
    }
}

/// The emission of a burst at (x, y): at rest, drag 950 thousandths, spreading with the
/// given velocity variance.
pub open spec fn burst_at(x: i64, y: i64, color: Shade, size: i64, age: i64, spread: i64, size_variance: i64, age_variance: i64) -> Emission {
    Emission {
        position: (x, y),
        velocity: (0, 0),
        drag: 950,
        size,
        color,
        age,
        position_variance: (0, 0),
        velocity_variance: (spread, spread),
        size_variance,
        age_variance,
    }
}

/// The particle burst of hit `h`: its emission and its count.
pub open spec fn hit_burst(h: Hit) -> (Emission, int) {
    match h {
        Hit::Damaged { x, y, by, .. } => (
            burst_at(x, y, if by == CollidableType::BULLET { Shade::Wound } else { Shade::Hull }, 1000, 2000, 50_000, 500, 200),
            16,
        ),
        Hit::Shattered { x, y, .. } => (burst_at(x, y, Shade::Dust, 500, 400, 30_000, 250, 100), 16),
        Hit::Spent { x, y, .. } => (burst_at(x, y, Shade::Ember, 500, 400, 10_000, 250, 100), 8),
    }
}

/// The sound of hit `h`, if any.
pub open spec fn hit_sound(h: Hit) -> Option<Sound> {
    match h {
        Hit::Damaged { by, .. } => Some(
            if by == CollidableType::BULLET { Sound::PlayerDeathByBullet } else { Sound::PlayerDeathByAsteroid },
        ),
        Hit::Shattered { .. } => Some(Sound::AsteroidExplode),
        Hit::Spent { .. } => None,
    }
}

/// The pitch range (thousandths) from which the sound of hit `h` is drawn.
pub open spec fn pitch_fits(h: Hit, pitch: i64) -> bool {
    match h {
        Hit::Damaged { .. } => 900 <= pitch < 1900,
        _ => 900 <= pitch < 1000,
    }
}

/// A burst of particles at (x, y) at rest, spreading with the given velocity variance.
fn burst(x: i64, y: i64, color: Shade, size: i64, age: i64, spread: i64, size_variance: i64, age_variance: i64) -> (e: Emission)
    requires
        within(x as int, POS_LIMIT + VEL_LIMIT),
        within(y as int, POS_LIMIT + VEL_LIMIT),
        0 <= size <= 1_000_000,
        0 <= size_variance <= 1_000_000,
        0 <= age_variance < age <= 1_000_000,
        0 <= spread <= 1_000_000,
    ensures
        crate::particles::emission_ok(e),
        e == burst_at(x, y, color, size, age, spread, size_variance, age_variance),
{
    Emission {
        position: (x, y),
        velocity: (0, 0),
        drag: 950,
        size,
        color,
        age,
        position_variance: (0, 0),
        velocity_variance: (spread, spread),
        size_variance,
        age_variance,
    }
}

fn pitch(base: i64, spread: u32) -> (r: i64)
    requires
        0 <= base <= 1_000_000,
        0 < spread <= 1_000_000,
    ensures
        base <= r < base + spread,
{
    base + (random_u32() % spread) as i64
}

/// Applies one hit: the game state and the queues change as `hit_game`, `hit_destroys`
/// and `hit_rocks` say, with fragments split along `angle`; particles and a sound follow.
#[verifier::rlimit(80)]
pub fn apply_hit(
    game: &mut GameState,
    req: &mut Requests,
    particles: &mut ParticleStorage,
    cues: &mut Vec<AudioCue>,
    h: Hit,
    angle: i64,
    now: i64,
)
    requires
        hit_ok(h),
        old(req).wf(),
        old(particles).wf(),
        0 <= angle < FULL_TURN_DEGREES,
        0 <= now <= TIME_LIMIT,
    ensures
        *final(game) == hit_game(h, *old(game)),
        final(req).destroy@ == old(req).destroy@ + hit_destroys(h, *old(game)),
        final(req).rocks@ == old(req).rocks@ + hit_rocks(h, angle as int),
        final(req).bolts@ == old(req).bolts@,
        final(req).wf(),
        final(particles).wf(),
        crate::particles::appended(old(particles).particles_container@, final(particles).particles_container@,
            hit_burst(h).0, hit_burst(h).1, now as int),
        match hit_sound(h) {
            Some(sound) => final(cues)@.len() == old(cues)@.len() + 1
                && final(cues)@.drop_last() == old(cues)@
                && final(cues)@.last().sound == sound
                && pitch_fits(h, final(cues)@.last().pitch),
            None => final(cues)@ == old(cues)@,
        },
{
    match h {
        Hit::Damaged { id, x, y, by } => {
            let out = game.damage();
            if out {
                req.destroy.push(id);
            }
            let shade = match by {
                CollidableType::BULLET => Shade::Wound,
                _ => Shade::Hull,
            };
            particles.create_particle(16, &burst(x, y, shade, 1000, 2000, 50_000, 500, 200), now);
            let sound = match by {
                CollidableType::BULLET => Sound::PlayerDeathByBullet,
                _ => Sound::PlayerDeathByAsteroid,
            };
            cues.push(AudioCue { sound, pitch: pitch(900, 1000) });
        },
        Hit::Shattered { id, x, y, radius } => {
            let ghost rocks0 = req.rocks@;
            fragment(&mut req.rocks, x, y, radius, angle);
            assert forall|i: int| 0 <= i < req.rocks.len() implies rock_ok(#[trigger] req.rocks[i]) by {
                if i >= rocks0.len() {
                    let o = rotated(radius as int, 0, angle * 1000);
                    assert(within(o.0, radius as int) && within(o.1, radius as int)) by {
                        crate::geometry::lemma_rotated_bound(radius as int, 0, angle * 1000);
                    }
                }
            }
            particles.create_particle(16, &burst(x, y, Shade::Dust, 500, 400, 30_000, 250, 100), now);
            cues.push(AudioCue { sound: Sound::AsteroidExplode, pitch: pitch(900, 100) });
            game.score_point();
            req.destroy.push(id);
        },
        Hit::Spent { id, x, y } => {
            particles.create_particle(8, &burst(x, y, Shade::Ember, 500, 400, 10_000, 250, 100), now);
            req.destroy.push(id);
        },
    }
    assert(req.destroy@ =~= old(req).destroy@ + hit_destroys(h, *old(game)));
    assert(req.rocks@ =~= old(req).rocks@ + hit_rocks(h, angle as int));
}


/// Applies the hits of a pass in order. The game state and the destroy queue change as
/// `game_after` and `destroys_after` say; the asteroid queue grows by the fragments of
/// every shattered asteroid, each split along an angle drawn at random.
pub fn apply_hits(
    game: &mut GameState,
    req: &mut Requests,
    particles: &mut ParticleStorage,
    cues: &mut Vec<AudioCue>,
    hs: &Vec<Hit>,
    now: i64,
)
    requires
        forall|i: int| 0 <= i < hs.len() ==> hit_ok(#[trigger] hs[i]),
        old(req).wf(),
        old(particles).wf(),
        0 <= now <= TIME_LIMIT,
    ensures
        *final(game) == game_after(hs@, *old(game)),
        final(req).destroy@ == old(req).destroy@ + destroys_after(hs@, *old(game)),
        exists|angles: Seq<int>|
            angles.len() == hs.len() && (forall|i: int| 0 <= i < angles.len() ==> 0 <= #[trigger] angles[i] < 360)
                && final(req).rocks@ == old(req).rocks@ + rocks_after(hs@, angles),
        final(req).bolts@ == old(req).bolts@,
        final(req).wf(),
        final(particles).wf(),
{
    let ghost g0 = *game;
    let ghost d0 = req.destroy@;
    let ghost r0 = req.rocks@;
    let ghost mut angles: Seq<int> = Seq::empty();
    let mut i: usize = 0;
    while i < hs.len()
        invariant
            i <= hs.len(),
            forall|k: int| 0 <= k < hs.len() ==> hit_ok(#[trigger] hs[k]),
            0 <= now <= TIME_LIMIT,
            req.wf(),
            particles.wf(),
            *game == game_after(hs@.take(i as int), g0),
            req.destroy@ == d0 + destroys_after(hs@.take(i as int), g0),
            angles.len() == i,
            forall|k: int| 0 <= k < angles.len() ==> 0 <= #[trigger] angles[k] < 360,
            req.rocks@ == r0 + rocks_after(hs@.take(i as int), angles),
            req.bolts@ == old(req).bolts@,
        decreases hs.len() - i,
    {
        let angle: i64 = (random_u32() % 360) as i64;
        let h = hs[i];
        let ghost t = hs@.take(i as int + 1);
        assert(t.drop_last() == hs@.take(i as int));
        assert(t.last() == h);
        let ghost a1 = angles.push(angle as int);
        assert(a1.drop_last() == angles);
        apply_hit(game, req, particles, cues, h, angle, now);
        proof {
            vstd::seq_lib::lemma_concat_associative(d0, destroys_after(hs@.take(i as int), g0), hit_destroys(h, game_after(hs@.take(i as int), g0)));
            vstd::seq_lib::lemma_concat_associative(r0, rocks_after(hs@.take(i as int), angles), hit_rocks(h, angle as int));
            angles = a1;
        }
        i = i + 1;
    }
    assert(hs@.take(hs.len() as int) == hs@);
}

/// The ids of the non-player entries of a snapshot, in order.
pub open spec fn swept(s: Seq<SnapEntry>) -> Seq<u64>
    decreases s.len(),
{
    if s.len() == 0 {
        Seq::empty()
    } else if s.last().collidable.1 == CollidableType::PLAYER {
        swept(s.drop_last())
    } else {
        swept(s.drop_last()).push(s.last().id)
    }
}

/// The particle burst of a swept snapshot entry.
pub open spec fn sweep_burst(o: SnapEntry) -> Emission {
    burst_at(o.position.0, o.position.1, if o.collidable.1 == CollidableType::BULLET { Shade::Ember } else { Shade::Dust },
        500, 400, 500, 250, 100)
}

/// Whether `p` is a particle of the burst of some entry of `s`.
pub open spec fn from_sweep(s: Seq<SnapEntry>, p: crate::particles::Particle, now: int) -> bool {
    exists|k: int| 0 <= k < s.len() && #[trigger] crate::particles::emitted_by(sweep_burst(s[k]), p, now)
}

/// Particles that the sweep of `s` emits: sixteen per asteroid, eight per bullet.
pub open spec fn sweep_count(s: Seq<SnapEntry>) -> int
    decreases s.len(),
{
    if s.len() == 0 {
        0
    } else {
        sweep_count(s.drop_last()) + match s.last().collidable.1 {
            CollidableType::PLAYER => 0int,
            CollidableType::ASTEROID => 16,
            CollidableType::BULLET => 8,
        }
    }
}

/// The clear-screen sweep: when the flag is set, every asteroid and bullet of the snapshot
/// is queued for destruction, with a small burst each, and the flag is cleared.
pub fn sweep(
    game: &mut GameState,
    req: &mut Requests,
    particles: &mut ParticleStorage,
    s: &Vec<SnapEntry>,
    now: i64,
)
    requires
        forall|i: int| 0 <= i < s.len() ==> entry_ok(#[trigger] s[i]),
        old(particles).wf(),
        0 <= now <= TIME_LIMIT,
    ensures
        *final(game) == (GameState { clear_screen: false, ..*old(game) }),
        final(req).destroy@ == old(req).destroy@ + if old(game).clear_screen { swept(s@) } else { Seq::empty() },
        final(req).rocks@ == old(req).rocks@,
        final(req).bolts@ == old(req).bolts@,
        final(particles).wf(),
        final(particles).particles_container@.len() == old(particles).particles_container@.len()
            + if old(game).clear_screen { sweep_count(s@) } else { 0 },
        final(particles).particles_container@.subrange(0, old(particles).particles_container@.len() as int)
            == old(particles).particles_container@,
        forall|j: int| old(particles).particles_container@.len() <= j < final(particles).particles_container@.len()
            ==> from_sweep(s@, #[trigger] final(particles).particles_container@[j], now as int),
{
    let ghost start_ps = particles.particles_container@;
    if game.clear_screen {
        let ghost d0 = req.destroy@;
        let mut i: usize = 0;
        while i < s.len()
            invariant
                i <= s.len(),
                forall|k: int| 0 <= k < s.len() ==> entry_ok(#[trigger] s[k]),
                0 <= now <= TIME_LIMIT,
                particles.wf(),
                req.destroy@ == d0 + swept(s@.take(i as int)),
                req.rocks@ == old(req).rocks@,
                req.bolts@ == old(req).bolts@,
                start_ps == old(particles).particles_container@,
                particles.particles_container@.len() == start_ps.len() + sweep_count(s@.take(i as int)),
                particles.particles_container@.len() >= start_ps.len(),
                particles.particles_container@.subrange(0, start_ps.len() as int) == start_ps,
                forall|j: int| start_ps.len() <= j < particles.particles_container@.len()
                    ==> from_sweep(s@, #[trigger] particles.particles_container@[j], now as int),
            decreases s.len() - i,
        {
            let o = s[i];
            assert(s@.take(i as int + 1).drop_last() == s@.take(i as int));
            assert(s@.take(i as int + 1).last() == o);
            let ghost before = particles.particles_container@;
            match o.collidable.1 {
                CollidableType::PLAYER => {},
                CollidableType::ASTEROID => {
                    particles.create_particle(16, &burst(o.position.0, o.position.1, Shade::Dust, 500, 400, 500, 250, 100), now);
                    req.destroy.push(o.id);
                },
                CollidableType::BULLET => {
                    particles.create_particle(8, &burst(o.position.0, o.position.1, Shade::Ember, 500, 400, 500, 250, 100), now);
                    req.destroy.push(o.id);
                },
            }
            assert(particles.particles_container@.len() >= before.len());
            assert(particles.particles_container@.subrange(0, before.len() as int) == before);
            assert(particles.particles_container@.subrange(0, start_ps.len() as int) =~= start_ps) by {
                assert(before.subrange(0, start_ps.len() as int) == start_ps);
                assert forall|j: int| 0 <= j < start_ps.len() implies particles.particles_container@[j] == start_ps[j] by {
                    assert(particles.particles_container@.subrange(0, before.len() as int)[j] == before[j]);
                    assert(before.subrange(0, start_ps.len() as int)[j] == start_ps[j]);
                }
            }
            assert forall|j: int| start_ps.len() <= j < particles.particles_container@.len()
                implies from_sweep(s@, #[trigger] particles.particles_container@[j], now as int) by {
                if j < before.len() {
                    assert(particles.particles_container@[j] == particles.particles_container@.subrange(0, before.len() as int)[j]);
                    assert(from_sweep(s@, before[j], now as int));
                } else {
                    assert(crate::particles::emitted_by(sweep_burst(s@[i as int]), particles.particles_container@[j], now as int));
                }
            }
            i = i + 1;
        }
        assert(s@.take(s.len() as int) == s@);
    } else {
        assert(req.destroy@ =~= old(req).destroy@ + Seq::<u64>::empty());
    }
    game.clear_screen = false;
}

/// The fragment of asteroid `e` on the `side` (1 or -1) of its radius vector rotated by
/// `angle` whole degrees, one unit smaller.
pub open spec fn child(e: Body, angle: int, side: int) -> RockRequest {
    let v = rotated(e.collidable.0 as int, 0, angle * 1000);
    RockRequest {
        x: (e.position.0 + side * v.0) as i64,
        y: (e.position.1 + side * v.1) as i64,
        radius: (e.collidable.0 - UNIT) as i64,
    }
}

/// Fragmentation: an asteroid of radius above the threshold that meets a bullet yields a
/// shatter hit whose requests are exactly two asteroids one unit smaller, at the parent's
/// position plus and minus its radius vector rotated by the drawn angle, and the parent's
/// destruction.
pub proof fn lemma_fragmentation(id: u64, e: Body, o: SnapEntry, g: GameState, angle: int)
    requires
        e.collidable.1 == CollidableType::ASTEROID,
        o.collidable.1 == CollidableType::BULLET,
        meets(id, e, o),
        e.collidable.0 > FRAGMENT_MIN_RADIUS,
    ensures
        hit_of(id, e, o) == Some(Hit::Shattered { id, x: e.position.0, y: e.position.1, radius: e.collidable.0 }),
        hit_rocks(hit_of(id, e, o).unwrap(), angle).len() == 2,
        hit_rocks(hit_of(id, e, o).unwrap(), angle)[0] == child(e, angle, 1),
        hit_rocks(hit_of(id, e, o).unwrap(), angle)[1] == child(e, angle, -1),
        hit_destroys(hit_of(id, e, o).unwrap(), g) == seq![id],
        hit_game(hit_of(id, e, o).unwrap(), g) == after_score(g),
{
}

/// Fragmentation floor: an asteroid of radius at or below the threshold that meets a
/// bullet yields no fragments, only its own destruction.
pub proof fn lemma_fragmentation_floor(id: u64, e: Body, o: SnapEntry, g: GameState, angle: int)
    requires
        e.collidable.1 == CollidableType::ASTEROID,
        o.collidable.1 == CollidableType::BULLET,
        meets(id, e, o),
        e.collidable.0 <= FRAGMENT_MIN_RADIUS,
    ensures
        hit_of(id, e, o) is Some,
        hit_rocks(hit_of(id, e, o).unwrap(), angle) == Seq::<RockRequest>::empty(),
        hit_destroys(hit_of(id, e, o).unwrap(), g) == seq![id],
{
}

/// Lives floor: a player hit at zero lives stays at zero lives and is queued for
/// destruction.
pub proof fn lemma_lives_floor(id: u64, x: i64, y: i64, by: CollidableType, g: GameState)
    requires
        g.lives == 0,
    ensures
        hit_game(Hit::Damaged { id, x, y, by }, g).lives == 0,
        hit_destroys(Hit::Damaged { id, x, y, by }, g) == seq![id],
{
}

/// Damage: a player hit loses one life (if any are left), gains 64 / (1 + lives left)
/// frames of hitstun and sets the clear-screen flag, which the sweep of the same substep
/// turns into destroy requests for every non-player entry of the snapshot.
pub proof fn lemma_damage(id: u64, x: i64, y: i64, by: CollidableType, g: GameState)
    requires
        g.lives > 0,
        g.hitstun + 64 <= u64::MAX,
    ensures
        hit_game(Hit::Damaged { id, x, y, by }, g).lives == g.lives - 1,
        hit_game(Hit::Damaged { id, x, y, by }, g).hitstun == g.hitstun + 64int / (g.lives as int),
        hit_game(Hit::Damaged { id, x, y, by }, g).clear_screen,
{
}


} // verus!
