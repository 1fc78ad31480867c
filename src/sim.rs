use vstd::prelude::*;
use crate::collision::{SnapEntry, entry_ok, moved_ok, pass_hits, resolve_pass, resolved_body};
use crate::components::{
    Body, Collidable, CollidableType, Controllable, Draw, Position, Tint, Velocity,
};
use crate::controls::{Controls, control_ship, steered};
use crate::effects::{game_after, rocks_after, AudioCue, BoltRequest, Requests, RockRequest, Sound, apply_hits, sweep, bolt_ok, rock_ok};
use crate::game::GameState;
use crate::geometry::rotate_point;
use crate::particles::{Particle, ParticleStorage, TIME_LIMIT, advanced, survivors};
use crate::physics::{body_ok, integrate, within, MAX_STEP_MS, POS_LIMIT, RADIUS_LIMIT};
use crate::queue::{dedup_bolts, dedup_ids, dedup_rocks, despawn_all, spawn_all};
use crate::random::random_u32;
use crate::store::Store;

verus! {

/// Radius of the player's ship and of a bullet (thousandths of a unit).
pub const SHIP_RADIUS: i64 = 1000;
pub const BULLET_RADIUS: i64 = 1000;

/// The body of a freshly created asteroid: at rest heading, given velocity.
pub open spec fn asteroid_body(x: int, y: int, size: int, v: Velocity) -> Body {
    Body {
        position: Position(x as i64, y as i64, 0),
        velocity: v,
        collidable: Collidable(size as i64, CollidableType::ASTEROID),
        controllable: None,
    }
}

/// The `k`-th outline point of an asteroid of radius `size`: straight up, one unit
/// further out when `bump` is set, turned by k times 22.5 degrees.
pub open spec fn rock_point(size: int, bump: bool, k: int) -> (i64, i64) {
    let p = crate::geometry::rotated(0, size + if bump { 1000int } else { 0 }, k * 22_500);
    (p.0 as i64, p.1 as i64)
}

/// Whether `d` is the outline of an asteroid of radius `size` with the bumps `bumps`:
/// sixteen points around it, closed on the first.
pub open spec fn rock_outline(d: Draw, size: int, bumps: Seq<bool>) -> bool {
    &&& d.0 == Tint::Rock
    &&& d.1@.len() == 17
    &&& forall|k: int| 0 <= k < 16 ==> #[trigger] d.1@[k] == rock_point(size, bumps[k], k)
    &&& d.1@[16] == d.1@[0]
}

/// The outline of an asteroid with the given bumps.
pub fn rock_shape_with(size: i64, bumps: &Vec<bool>) -> (d: Draw)
    requires
        0 < size <= RADIUS_LIMIT,
        bumps.len() == 16,
    ensures
        rock_outline(d, size as int, bumps@),
{
    let mut pts: Vec<(i64, i64)> = Vec::new();
    let mut k: usize = 0;
    while k < 16
        invariant
            0 <= k <= 16,
            0 < size <= RADIUS_LIMIT,
            bumps.len() == 16,
            pts.len() == k,
            forall|j: int| 0 <= j < k ==> #[trigger] pts@[j] == rock_point(size as int, bumps@[j], j),
        decreases 16 - k,
    {
        let bump: i64 = if bumps[k] { 1000 } else { 0 };
        let p = rotate_point((0, bump + size), k as i64 * 22_500);
        pts.push(p);
        k = k + 1;
    }
    let first = pts[0];
    pts.push(first);
    Draw(Tint::Rock, pts)
}

/// The outline of an asteroid, each point bumped out one unit at random.
fn rock_shape(size: i64) -> (d: Draw)
    requires
        0 < size <= RADIUS_LIMIT,
    ensures
        exists|bumps: Seq<bool>| #[trigger] rock_outline(d, size as int, bumps),
{
    let mut bumps: Vec<bool> = Vec::new();
    let mut k: usize = 0;
    while k < 16
        invariant
            k <= 16,
            bumps.len() == k,
        decreases 16 - k,
    {
        bumps.push(random_u32() % 2 == 1);
        k = k + 1;
    }
    let d = rock_shape_with(size, &bumps);
    assert(rock_outline(d, size as int, bumps@));
    d
}

/// Whether `x` is a possible asteroid velocity component: a whole number of units per
/// second from -10 to 9.
pub open spec fn drift_ok(x: int) -> bool {
    -10_000 <= x <= 9000 && x % 1000 == 0
}

/// Whether every component of `v` is a possible asteroid drift or spin.
pub open spec fn drifting(v: Velocity) -> bool {
    drift_ok(v.0 as int) && drift_ok(v.1 as int) && drift_ok(v.2 as int)
}

/// An asteroid velocity component from a random draw: (draw mod 20) - 10 whole units.
pub fn drift_from(draw: u32) -> (r: i64)
    ensures
        r == ((draw % 20) as int - 10) * 1000,
        drift_ok(r as int),
{
    ((draw % 20) as i64 - 10) * 1000
}

/// Whether `b` is the body that an asteroid request `r` becomes.
pub open spec fn rock_body_for(b: Body, r: RockRequest) -> bool {
    b == asteroid_body(r.x as int, r.y as int, r.radius as int, b.velocity) && drifting(b.velocity)
}

/// An asteroid of the given size at `point`, with a random drift and spin.
pub fn create_asteroid_point(point: (i64, i64), size: i64) -> (r: (Body, Draw))
    requires
        within(point.0 as int, POS_LIMIT as int),
        within(point.1 as int, POS_LIMIT as int),
        0 < size <= RADIUS_LIMIT,
    ensures
        r.0 == asteroid_body(point.0 as int, point.1 as int, size as int, r.0.velocity),
        drifting(r.0.velocity),
        exists|bumps: Seq<bool>| #[trigger] rock_outline(r.1, size as int, bumps),
        body_ok(r.0),
{
    let v = Velocity(drift_from(random_u32()), drift_from(random_u32()), drift_from(random_u32()));
    let b = Body {
        position: Position(point.0, point.1, 0),
        velocity: v,
        collidable: Collidable(size, CollidableType::ASTEROID),
        controllable: None,
    };
    assert(b == asteroid_body(point.0 as int, point.1 as int, size as int, v));
    let d = rock_shape(size);
    let ghost bumps = choose|bumps: Seq<bool>| #[trigger] rock_outline(d, size as int, bumps);
    let r = (b, d);
    assert(rock_outline(r.1, size as int, bumps));
    r
}

/// Where the periodic asteroid appears at time `now`: on an ellipse around the playfield
/// (semi-axes 256 and 144 units, centred at (128, 72)), at an angle that turns 7334 degrees
/// (128 radians) per second, taken to the whole degree.
pub open spec fn spawn_point(now: int) -> (int, int) {
    let angle = ((now % 360_000) * 7334 / 1000) % 360;
    (
        crate::geometry::rotated(256_000, 0, angle * 1000).0 + 128_000,
        crate::geometry::rotated(144_000, 0, angle * 1000).1 + 72_000,
    )
}

/// The spawn point at time `now`.
pub fn spawn_point_at(now: i64) -> (r: (i64, i64))
    requires
        0 <= now <= TIME_LIMIT,
    ensures
        (r.0 as int, r.1 as int) == spawn_point(now as int),
        within(r.0 as int, POS_LIMIT as int),
        within(r.1 as int, POS_LIMIT as int),
{
    let angle: i64 = ((now % 360_000) * 7334 / 1000) % 360;
    let ox = rotate_point((256_000, 0), angle * 1000);
    let oy = rotate_point((144_000, 0), angle * 1000);
    (ox.0 + 128_000, oy.1 + 72_000)
}

/// Whether `r` is a possible periodic asteroid radius: 3 units plus a whole number of
/// hundredths below 4 units.
pub open spec fn size_ok(r: int) -> bool {
    3000 <= r <= 6990 && r % 10 == 0
}

/// A periodic asteroid radius from a random draw: 3 units plus (draw mod 400) hundredths.
pub fn asteroid_size(draw: u32) -> (r: i64)
    ensures
        r == 3000 + (draw % 400) as int * 10,
        size_ok(r as int),
{
    3000 + (draw % 400) as i64 * 10
}

/// Whether `b` is a periodic asteroid spawned at time `now`.
pub open spec fn spawned_rock(b: Body, now: int) -> bool {
    &&& b == asteroid_body(spawn_point(now).0, spawn_point(now).1, b.collidable.0 as int, b.velocity)
    &&& size_ok(b.collidable.0 as int)
    &&& drifting(b.velocity)
}

/// Store `m1` is store `m0` with one new periodic asteroid spawned at time `now`.
pub open spec fn spawn_rel(m0: Map<u64, Body>, m1: Map<u64, Body>, now: int) -> bool {
    exists|id: u64, b: Body| !m0.contains_key(id) && #[trigger] m0.insert(id, b) == m1 && spawned_rock(b, now)
}

/// The store right after a reset: the ship `id` alone, with the ship's body and drawing.
pub open spec fn reset_state(s: Store, id: u64) -> bool {
    &&& s@ == Map::<u64, Body>::empty().insert(id, ship_body())
    &&& s.drawings().dom() == set![id]
    &&& ship_draw(s.drawings()[id])
}

/// The body of a bullet fired from `b`: two units ahead of the ship along its heading,
/// moving with the ship plus twenty units per second along the heading.
pub open spec fn bullet_body(b: BoltRequest) -> Body {
    let off = crate::geometry::rotated(0, -2000, b.heading as int);
    let kick = crate::geometry::rotated(0, -20_000, b.heading as int);
    Body {
        position: Position((b.x + off.0) as i64, (b.y + off.1) as i64, b.heading),
        velocity: Velocity((b.vx + kick.0) as i64, (b.vy + kick.1) as i64, 0),
        collidable: Collidable(BULLET_RADIUS, CollidableType::BULLET),
        controllable: None,
    }
}

/// A bullet for a bolt request.
pub fn create_bullet(b: BoltRequest) -> (r: (Body, Draw))
    requires
        bolt_ok(b),
    ensures
        r.0 == bullet_body(b),
        body_ok(r.0),
{
    let off = rotate_point((0, -2000), b.heading);
    let kick = rotate_point((0, -20_000), b.heading);
    let body = Body {
        position: Position(b.x + off.0, b.y + off.1, b.heading),
        velocity: Velocity(b.vx + kick.0, b.vy + kick.1, 0),
        collidable: Collidable(BULLET_RADIUS, CollidableType::BULLET),
        controllable: None,
    };
    (body, Draw(Tint::Bolt, vec![(0, -1000), (0, 1000)]))
}

/// The player's ship as a reset creates it: centred at the bottom edge, drifting down
/// and spinning.
pub open spec fn ship_body() -> Body {
    Body {
        position: Position(128_000, 144_000, 0),
        velocity: Velocity(0, 20_000, 1_125_000),
        collidable: Collidable(SHIP_RADIUS, CollidableType::PLAYER),
        controllable: Some(Controllable()),
    }
}

/// The ship's outline: an arrowhead, closed on its first point.
pub open spec fn ship_outline() -> Seq<(i64, i64)> {
    seq![(-2000i64, 3000i64), (0i64, -3000i64), (2000i64, 3000i64), (0i64, 1000i64), (-2000i64, 3000i64)]
}

/// Whether `d` is the ship's drawing.
pub open spec fn ship_draw(d: Draw) -> bool {
    d.0 == Tint::Ship && d.1@ == ship_outline()
}

fn create_ship() -> (r: (Body, Draw))
    ensures
        r.0 == ship_body(),
        ship_draw(r.1),
        body_ok(r.0),
{
    let mut pts: Vec<(i64, i64)> = Vec::new();
    pts.push((-2000, 3000));
    pts.push((0, -3000));
    pts.push((2000, 3000));
    pts.push((0, 1000));
    pts.push((-2000, 3000));
    assert(pts@ =~= ship_outline());
    let body = Body {
        position: Position(128_000, 144_000, 0),
        velocity: Velocity(0, 20_000, 1_125_000),
        collidable: Collidable(SHIP_RADIUS, CollidableType::PLAYER),
        controllable: Some(Controllable()),
    };
    (body, Draw(Tint::Ship, pts))
}

/// Every body of `es` moved by its velocity for `dt` milliseconds.
pub fn integrate_all(es: &Vec<(u64, Body)>, dt: i64) -> (r: Vec<(u64, Body)>)
    requires
        forall|i: int| 0 <= i < es.len() ==> body_ok(#[trigger] es[i].1),
        0 <= dt <= MAX_STEP_MS,
    ensures
        r.len() == es.len(),
        forall|i: int| 0 <= i < es.len() ==> #[trigger] r[i] == (es[i].0, Body {
            position: crate::physics::integrated(es[i].1.position, es[i].1.velocity, dt as int),
            ..es[i].1
        }),
        forall|i: int| 0 <= i < r.len() ==> moved_ok(#[trigger] r[i].1),
{
    let mut r: Vec<(u64, Body)> = Vec::new();
    let mut i: usize = 0;
    while i < es.len()
        invariant
            i <= es.len(),
            r.len() == i,
            0 <= dt <= MAX_STEP_MS,
            forall|k: int| 0 <= k < es.len() ==> body_ok(#[trigger] es[k].1),
            forall|k: int| 0 <= k < i ==> #[trigger] r[k] == (es[k].0, Body {
                position: crate::physics::integrated(es[k].1.position, es[k].1.velocity, dt as int),
                ..es[k].1
            }),
            forall|k: int| 0 <= k < i ==> moved_ok(#[trigger] r[k].1),
        decreases es.len() - i,
    {
        let (id, b) = es[i];
        let p = integrate(b.position, b.velocity, dt);
        r.push((id, Body { position: p, ..b }));
        i = i + 1;
    }
    r
}

/// The snapshot of a pass: id, position and collidable of every entity, in order.
pub fn snapshot_of(es: &Vec<(u64, Body)>) -> (s: Vec<SnapEntry>)
    requires
        forall|i: int| 0 <= i < es.len() ==> moved_ok(#[trigger] es[i].1),
    ensures
        s.len() == es.len(),
        forall|i: int| 0 <= i < es.len() ==> #[trigger] s[i] == (SnapEntry {
            id: es[i].0,
            position: es[i].1.position,
            collidable: es[i].1.collidable,
        }),
        forall|i: int| 0 <= i < s.len() ==> entry_ok(#[trigger] s[i]),
{
    let mut s: Vec<SnapEntry> = Vec::new();
    let mut i: usize = 0;
    while i < es.len()
        invariant
            i <= es.len(),
            s.len() == i,
            forall|k: int| 0 <= k < es.len() ==> moved_ok(#[trigger] es[k].1),
            forall|k: int| 0 <= k < i ==> #[trigger] s[k] == (SnapEntry {
                id: es[k].0,
                position: es[k].1.position,
                collidable: es[k].1.collidable,
            }),
            forall|k: int| 0 <= k < i ==> entry_ok(#[trigger] s[k]),
        decreases es.len() - i,
    {
        let (id, b) = es[i];
        s.push(SnapEntry { id, position: b.position, collidable: b.collidable });
        i = i + 1;
    }
    s
}

/// `es` lists the entities of `m`, each once, in some order.
pub open spec fn lists(es: Seq<(u64, Body)>, m: Map<u64, Body>) -> bool {
    &&& forall|i: int| 0 <= i < es.len() ==> m.contains_key(#[trigger] es[i].0) && m[es[i].0] == es[i].1
    &&& forall|i: int, j: int| 0 <= i < j < es.len() ==> es[i].0 != es[j].0
    &&& forall|k: u64| m.contains_key(k) ==> exists|i: int| 0 <= i < es.len() && #[trigger] es[i].0 == k
}

/// `b` moved by its velocity for `dt` milliseconds.
pub open spec fn moved_body(b: Body, dt: int) -> Body {
    Body { position: crate::physics::integrated(b.position, b.velocity, dt), ..b }
}

/// The entities of `es`, each moved for `dt` milliseconds.
pub open spec fn moved_of(es: Seq<(u64, Body)>, dt: int) -> Seq<(u64, Body)> {
    es.map_values(|e: (u64, Body)| (e.0, moved_body(e.1, dt)))
}

/// The snapshot of the entities `ms`.
pub open spec fn snap_of(ms: Seq<(u64, Body)>) -> Seq<SnapEntry> {
    ms.map_values(|e: (u64, Body)| SnapEntry { id: e.0, position: e.1.position, collidable: e.1.collidable })
}

/// The entities `ms` resolved against the snapshot `s`.
pub open spec fn resolved_of(ms: Seq<(u64, Body)>, s: Seq<SnapEntry>) -> Seq<(u64, Body)> {
    ms.map_values(|e: (u64, Body)| (e.0, resolved_body(e.0, e.1, s)))
}

/// `b` after the control step: the steered ship's velocity follows the input, any other
/// body is unchanged.
pub open spec fn piloted(b: Body, c: Controls, dt: int) -> Body {
    if b.controllable is Some {
        Body { velocity: steered(b.velocity, b.position.2 as int, c, dt), ..b }
    } else {
        b
    }
}

/// The bullet requests of the control step over the entities `rs`, in order.
pub open spec fn bolts_of(rs: Seq<(u64, Body)>, c: Controls, dt: int) -> Seq<BoltRequest>
    decreases rs.len(),
{
    if rs.len() == 0 {
        Seq::empty()
    } else {
        let b = rs.last().1;
        let prev = bolts_of(rs.drop_last(), c, dt);
        if c.fire && b.controllable is Some {
            let v = steered(b.velocity, b.position.2 as int, c, dt);
            prev.push(BoltRequest { x: b.position.0, y: b.position.1, heading: b.position.2, vx: v.0, vy: v.1 })
        } else {
            prev
        }
    }
}

/// One substep from store `m0` and game `g0` to store `m1` and game `g1`, for the entity
/// order `es` that the store listed, the fragment angles `angles` that were drawn, and the
/// ids `created` that the flush made. Every entity moves, the snapshot is taken, each
/// entity is resolved against it, the hits change the game, survivors keep their resolved
/// (and, for the ship, steered) body, the destroyed are gone, and the new entities are
/// exactly the distinct fragments and bullets.
pub open spec fn stepped(
    m0: Map<u64, Body>,
    g0: GameState,
    m1: Map<u64, Body>,
    g1: GameState,
    c: Controls,
    dt: int,
    es: Seq<(u64, Body)>,
    angles: Seq<int>,
    created: Seq<u64>,
) -> bool {
    let ms = moved_of(es, dt);
    let s = snap_of(ms);
    let hs = pass_hits(ms, s);
    let gone = destroyed_by(hs, s, g0);
    let rocks = rocks_after(hs, angles);
    let bolts = bolts_of(resolved_of(ms, s), c, dt);
    &&& lists(es, m0)
    &&& angles.len() == hs.len()
    &&& forall|i: int| 0 <= i < angles.len() ==> 0 <= #[trigger] angles[i] < 360
    &&& g1 == settled(game_after(hs, g0))
    &&& forall|k: u64| #[trigger] m0.contains_key(k) && !gone.contains(k) ==> m1.contains_key(k)
        && m1[k] == piloted(resolved_body(k, moved_body(m0[k], dt), s), c, dt)
    &&& forall|k: u64| #[trigger] gone.contains(k) ==> !m1.contains_key(k) || created.contains(k)
    &&& forall|k: u64| #[trigger] m1.contains_key(k) ==> (m0.contains_key(k) && !gone.contains(k)) || created.contains(k)
    &&& forall|i: int| 0 <= i < created.len() ==> !(m0.contains_key(#[trigger] created[i]) && !gone.contains(created[i]))
    &&& created.len() == rocks.to_set().len() + bolts.to_set().len()
    &&& forall|r: RockRequest| #[trigger] rocks.contains(r) ==> exists|i: int| 0 <= i < created.len()
        && m1.contains_key(created[i]) && #[trigger] rock_body_for(m1[created[i]], r)
    &&& forall|b: BoltRequest| #[trigger] bolts.contains(b) ==> exists|i: int| 0 <= i < created.len()
        && m1.contains_key(created[i]) && #[trigger] m1[created[i]] == bullet_body(b)
}

/// The particles `ps` after one update at time `now` with step `dt`.
pub open spec fn aged(ps: Seq<Particle>, dt: int, now: int) -> Seq<Particle> {
    survivors(ps.map_values(|p: Particle| advanced(p, dt)), now)
}

/// Some substep leads from store `m0` and game `g0` to store `m1` and game `g1`.
pub open spec fn substep_rel(m0: Map<u64, Body>, g0: GameState, m1: Map<u64, Body>, g1: GameState, c: Controls, dt: int) -> bool {
    exists|es: Seq<(u64, Body)>, angles: Seq<int>, created: Seq<u64>| #[trigger] stepped(m0, g0, m1, g1, c, dt, es, angles, created)
}

/// A running frame from store `m` and game `g` (hitstun zero) to store `mf` and game `gf`
/// at time `now`: the cooldown advances by `dt`, restarting first when it is due, which
/// spawns an asteroid (store `m0`); then three substeps pass through `m1`/`g1` and `m2`/`g2`.
pub open spec fn framed(
    m: Map<u64, Body>,
    g: GameState,
    m0: Map<u64, Body>,
    m1: Map<u64, Body>,
    g1: GameState,
    m2: Map<u64, Body>,
    g2: GameState,
    mf: Map<u64, Body>,
    gf: GameState,
    c: Controls,
    dt: int,
    now: int,
) -> bool {
    let due = g.asteroid_cooldown <= 0;
    let g0 = GameState {
        asteroid_cooldown: ((if due { crate::game::SPAWN_PERIOD_MS as int } else { g.asteroid_cooldown as int }) - dt) as i64,
        ..g
    };
    &&& if due { spawn_rel(m, m0, now) } else { m0 == m }
    &&& substep_rel(m0, g0, m1, g1, c, dt)
    &&& substep_rel(m1, g1, m2, g2, c, dt)
    &&& substep_rel(m2, g2, mf, gf, c, dt)
}

/// Whether entity `k` of `m` is the steered ship.
pub open spec fn pilot(m: Map<u64, Body>, k: u64) -> bool {
    m.contains_key(k) && m[k].controllable is Some
}

/// At most one entity is steered.
pub open spec fn one_pilot(m: Map<u64, Body>) -> bool {
    forall|a: u64, b: u64| #[trigger] pilot(m, a) && #[trigger] pilot(m, b) ==> a == b
}

/// `g` with the clear-screen flag down.
pub open spec fn settled(g: GameState) -> GameState {
    GameState { clear_screen: false, ..g }
}

/// The ids a substep destroys: those its hits name, then, when the hits leave the
/// clear-screen flag set, every non-player entry of the snapshot.
pub open spec fn destroyed_by(hs: Seq<crate::collision::Hit>, s: Seq<SnapEntry>, g: GameState) -> Seq<u64> {
    crate::effects::destroys_after(hs, g) + if crate::effects::game_after(hs, g).clear_screen {
        crate::effects::swept(s)
    } else {
        Seq::empty()
    }
}

/// Writes resolved bodies back into the store.
fn write_back(store: &mut Store, es: &Vec<(u64, Body)>)
    requires
        old(store).wf(),
        forall|i: int| 0 <= i < es.len() ==> body_ok(#[trigger] es[i].1),
        forall|i: int| 0 <= i < es.len() && #[trigger] old(store)@.contains_key(es[i].0)
            ==> es[i].1.controllable == old(store)@[es[i].0].controllable,
        forall|i: int, j: int| 0 <= i < j < es.len() ==> es[i].0 != es[j].0,
    ensures
        forall|i: int| 0 <= i < es.len() && #[trigger] old(store)@.contains_key(es[i].0)
            ==> final(store)@[es[i].0] == es[i].1,
        final(store).wf(),
        final(store)@.dom() == old(store)@.dom(),
        forall|k: u64| #[trigger] pilot(final(store)@, k) == pilot(old(store)@, k),
        forall|k: u64| final(store)@.contains_key(k) ==> #[trigger] final(store)@[k].controllable == old(store)@[k].controllable,
{
    let mut i: usize = 0;
    while i < es.len()
        invariant
            i <= es.len(),
            store.wf(),
            store@.dom() == old(store)@.dom(),
            forall|k: int| 0 <= k < es.len() ==> body_ok(#[trigger] es[k].1),
            forall|k: int| 0 <= k < es.len() && #[trigger] old(store)@.contains_key(es[k].0)
                ==> es[k].1.controllable == old(store)@[es[k].0].controllable,
            forall|k: u64| store@.contains_key(k) ==> #[trigger] store@[k].controllable == old(store)@[k].controllable,
            forall|a: int, b: int| 0 <= a < b < es.len() ==> es[a].0 != es[b].0,
            forall|j: int| 0 <= j < i && #[trigger] old(store)@.contains_key(es[j].0) ==> store@[es[j].0] == es[j].1,
        decreases es.len() - i,
    {
        let (id, b) = es[i];
        store.set(id, b);
        proof {
            assert(store@.dom() =~= old(store)@.dom());
        }
        i = i + 1;
    }
    assert forall|k: u64| #[trigger] pilot(store@, k) == pilot(old(store)@, k) by {
        if store@.contains_key(k) {
            assert(store@[k].controllable == old(store)@[k].controllable);
        }
    }
}

/// The control step: every steered ship among the resolved entities `rs` gets its new
/// velocity, its bullet request and its exhaust particles.
fn steer_ships(
    store: &mut Store,
    rs: &Vec<(u64, Body)>,
    c: &Controls,
    dt: i64,
    req: &mut Requests,
    particles: &mut ParticleStorage,
    cues: &mut Vec<AudioCue>,
    now: i64,
)
    requires
        old(store).wf(),
        one_pilot(old(store)@),
        old(req).wf(),
        old(particles).wf(),
        0 <= dt <= MAX_STEP_MS,
        0 <= now <= TIME_LIMIT,
        forall|k: int| 0 <= k < rs.len() ==> body_ok(#[trigger] rs[k].1),
        forall|k: int| 0 <= k < rs.len() ==> within(#[trigger] rs[k].1.position.0 as int, POS_LIMIT / 2)
            && within(rs[k].1.position.1 as int, POS_LIMIT / 2),
        forall|a: int, b: int| 0 <= a < b < rs.len() ==> rs[a].0 != rs[b].0,
        forall|k: int| 0 <= k < rs.len() ==> old(store)@.contains_key(#[trigger] rs[k].0) && old(store)@[rs[k].0] == rs[k].1,
    ensures
        final(store).wf(),
        one_pilot(final(store)@),
        final(particles).wf(),
        final(store)@.dom() == old(store)@.dom(),
        forall|k: int| 0 <= k < rs.len() ==> #[trigger] final(store)@[rs[k].0] == piloted(rs[k].1, *c, dt as int),
        final(req).wf(),
        final(req).destroy@ == old(req).destroy@,
        final(req).rocks@ == old(req).rocks@,
        final(req).bolts@ == old(req).bolts@ + bolts_of(rs@, *c, dt as int),
{
    let ghost dti = dt as int;
    let mut i: usize = 0;
    while i < rs.len()
        invariant
            i <= rs.len(),
            store.wf(),
            one_pilot(store@),
            req.wf(),
            particles.wf(),
            0 <= dt <= MAX_STEP_MS,
            0 <= now <= TIME_LIMIT,
            dti == dt,
            forall|k: int| 0 <= k < rs.len() ==> body_ok(#[trigger] rs[k].1),
            forall|k: int| 0 <= k < rs.len() ==> within(#[trigger] rs[k].1.position.0 as int, POS_LIMIT / 2)
                && within(rs[k].1.position.1 as int, POS_LIMIT / 2),
            forall|a: int, b: int| 0 <= a < b < rs.len() ==> rs[a].0 != rs[b].0,
            forall|k: int| 0 <= k < rs.len() ==> old(store)@.contains_key(#[trigger] rs[k].0) && old(store)@[rs[k].0] == rs[k].1,
            store@.dom() == old(store)@.dom(),
            forall|k: int| 0 <= k < rs.len() ==> #[trigger] store@[rs[k].0] == if k < i { piloted(rs[k].1, *c, dti) } else { rs[k].1 },
            req.destroy@ == old(req).destroy@,
            req.rocks@ == old(req).rocks@,
            req.bolts@ == old(req).bolts@ + bolts_of(rs@.take(i as int), *c, dti),
        decreases rs.len() - i,
    {
        let (id, b) = rs[i];
        assert(rs@.take(i as int + 1).drop_last() == rs@.take(i as int));
        assert(rs@.take(i as int + 1).last() == rs[i as int]);
        let ghost start = store@;
        let ghost bolts0 = req.bolts@;
        if b.controllable.is_some() {
            let nb = control_ship(b, c, dt, req, particles, cues, now);
            assert(nb == piloted(b, *c, dti));
            store.set(id, nb);
            assert(store@.dom() =~= old(store)@.dom());
            assert forall|a: u64| #[trigger] pilot(store@, a) implies pilot(start, a) by {
                if a == id {
                    assert(start[id] == b);
                }
            }
            assert forall|a: u64, e: u64| #[trigger] pilot(store@, a) && #[trigger] pilot(store@, e) implies a == e by {
                assert(pilot(start, a) && pilot(start, e));
            }
        }
        assert(req.bolts@ =~= old(req).bolts@ + bolts_of(rs@.take(i as int + 1), *c, dti));
        assert forall|k: int| 0 <= k < rs.len() implies #[trigger] store@[rs[k].0] == if k < i + 1 {
            piloted(rs[k].1, *c, dti)
        } else {
            rs[k].1
        } by {
            if k != i {
                assert(rs[k].0 != id);
                assert(start.contains_key(rs[k].0));
            }
        }
        i = i + 1;
    }
    assert(rs@.take(rs.len() as int) == rs@);
}

/// The whole mutable state of a game: entities, particles, scores and pending sounds.
pub struct Simulation {
    pub store: Store,
    pub game: GameState,
    pub particles: ParticleStorage,
    /// Sounds requested since the audio player last drained them.
    pub cues: Vec<AudioCue>,
}

impl Simulation {
    pub open spec fn wf(&self) -> bool {
        self.store.wf() && self.game.wf() && self.particles.wf() && one_pilot(self.store@)
    }

    /// An empty game, waiting for a reset.
    pub fn new() -> (r: Simulation)
        ensures
            r.wf(),
            r.store@.len() == 0,
            r.game == GameState::new_spec(),
            r.cues@.len() == 0,
    {
        Simulation { store: Store::new(), game: GameState::new(), particles: ParticleStorage::new(), cues: Vec::new() }
    }

    /// Starts a new game: clears the store, creates the player's ship, refills the lives,
    /// restarts the score (keeping the best in the high score) and asks for the spawn sound.
    pub fn world_reset(&mut self)
        requires
            old(self).wf(),
        ensures
            final(self).wf(),
            exists|id: u64| #[trigger] reset_state(final(self).store, id),
            final(self).game == (GameState {
                lives: crate::game::START_LIVES,
                score: 0,
                high_score: if old(self).game.high_score >= old(self).game.score {
                    old(self).game.high_score
                } else {
                    old(self).game.score
                },
                ..old(self).game
            }),
            final(self).cues@ == old(self).cues@.push(AudioCue { sound: Sound::PlayerSpawn, pitch: final(self).cues@.last().pitch }),
    {
        self.store.clear();
        let (b, d) = create_ship();
        let id = self.store.spawn(b, d);
        assert(self.store@ =~= Map::<u64, Body>::empty().insert(id, ship_body()));
        self.game.reset();
        self.cues.push(AudioCue { sound: Sound::PlayerSpawn, pitch: 900 + (random_u32() % 1000) as i64 });
        assert(self.store@ == Map::<u64, Body>::empty().insert(id, ship_body()));
        assert(self.store.drawings().dom() =~= set![id]);
        assert(reset_state(self.store, id));
        assert forall|a: u64, c: u64| #[trigger] pilot(self.store@, a) && #[trigger] pilot(self.store@, c) implies a == c by {
            assert(a == id && c == id);
        }
    }

    /// The periodic asteroid: at `spawn_point(now)`, with a random size and drift.
    pub fn create_asteroid(&mut self, now: i64)
        requires
            old(self).wf(),
            0 <= now <= TIME_LIMIT,
        ensures
            final(self).wf(),
            spawn_rel(old(self).store@, final(self).store@, now as int),
            final(self).game == old(self).game,
            final(self).particles == old(self).particles,
            final(self).cues == old(self).cues,
    {
        let p = spawn_point_at(now);
        let size = asteroid_size(random_u32());
        let (b, d) = create_asteroid_point(p, size);
        let id = self.store.spawn(b, d);
        assert(spawned_rock(b, now as int));
        assert(self.store@ == old(self).store@.insert(id, b));
        assert forall|a: u64| #[trigger] pilot(self.store@, a) implies pilot(old(self).store@, a) by {
            if a == id {
                assert(self.store@[id] == b);
            }
        }
    }

    /// Applies the queued requests: duplicates are dropped, then destroys, then asteroid
    /// creations, then bullet creations. Returns the ids created.
    pub fn flush(&mut self, req: &Requests) -> (created: Vec<u64>)
        requires
            old(self).wf(),
            req.wf(),
        ensures
            final(self).wf(),
            final(self).game == old(self).game,
            forall|k: u64| #[trigger] old(self).store@.contains_key(k) && !req.destroy@.contains(k)
                ==> final(self).store@.contains_key(k) && final(self).store@[k] == old(self).store@[k],
            forall|k: u64| #[trigger] final(self).store@.contains_key(k)
                ==> (old(self).store@.contains_key(k) && !req.destroy@.contains(k)) || created@.contains(k),
            forall|i: int| 0 <= i < created.len() ==> !old(self).store@.contains_key(#[trigger] created[i])
                || req.destroy@.contains(created[i]),
            forall|k: u64| #[trigger] req.destroy@.contains(k) ==> !final(self).store@.contains_key(k) || created@.contains(k),
            created.len() == req.rocks@.to_set().len() + req.bolts@.to_set().len(),
            forall|r: RockRequest| #[trigger] req.rocks@.contains(r) ==> exists|i: int| 0 <= i < created.len()
                && final(self).store@.contains_key(created[i]) && #[trigger] rock_body_for(final(self).store@[created[i]], r),
            forall|b: BoltRequest| #[trigger] req.bolts@.contains(b) ==> exists|i: int| 0 <= i < created.len()
                && final(self).store@.contains_key(created[i]) && #[trigger] final(self).store@[created[i]] == bullet_body(b),
    {
        let ids = dedup_ids(&req.destroy);
        let ghost s0 = self.store@;
        despawn_all(&mut self.store, &ids);
        proof {
            assert(self.store.wf());
        }
        let rocks = dedup_rocks(&req.rocks);
        let bolts = dedup_bolts(&req.bolts);
        let mut bodies: Vec<(Body, Draw)> = Vec::new();
        let mut i: usize = 0;
        while i < rocks.len()
            invariant
                i <= rocks.len(),
                forall|x: RockRequest| rocks@.contains(x) <==> req.rocks@.contains(x),
                req.wf(),
                bodies.len() == i,
                forall|k: int| 0 <= k < bodies.len() ==> body_ok(#[trigger] bodies[k].0),
                forall|k: int| 0 <= k < bodies.len() ==> (#[trigger] bodies[k].0).controllable is None,
                forall|k: int| 0 <= k < bodies.len() ==> rock_body_for(#[trigger] bodies[k].0, rocks[k]),
            decreases rocks.len() - i,
        {
            let r = rocks[i];
            assert(rocks@.contains(r));
            let ghost k = choose|k: int| 0 <= k < req.rocks@.len() && #[trigger] req.rocks@[k] == r;
            assert(rock_ok(req.rocks[k]));
            bodies.push(create_asteroid_point((r.x, r.y), r.radius));
            i = i + 1;
        }
        let mut j: usize = 0;
        while j < bolts.len()
            invariant
                j <= bolts.len(),
                forall|x: BoltRequest| bolts@.contains(x) <==> req.bolts@.contains(x),
                req.wf(),
                bodies.len() == rocks.len() + j,
                forall|k: int| 0 <= k < bodies.len() ==> body_ok(#[trigger] bodies[k].0),
                forall|k: int| 0 <= k < bodies.len() ==> (#[trigger] bodies[k].0).controllable is None,
                forall|k: int| 0 <= k < rocks.len() ==> rock_body_for(#[trigger] bodies[k].0, rocks[k]),
                forall|k: int| 0 <= k < j ==> #[trigger] bodies[rocks.len() + k].0 == bullet_body(bolts[k]),
            decreases bolts.len() - j,
        {
            let b = bolts[j];
            assert(bolts@.contains(b));
            let ghost k = choose|k: int| 0 <= k < req.bolts@.len() && #[trigger] req.bolts@[k] == b;
            assert(bolt_ok(req.bolts[k]));
            bodies.push(create_bullet(b));
            j = j + 1;
        }
        let ghost s1 = self.store@;
        let created = spawn_all(&mut self.store, &bodies);
        proof {
            assert forall|k: u64| #[trigger] old(self).store@.contains_key(k) && !req.destroy@.contains(k)
                implies self.store@.contains_key(k) && self.store@[k] == old(self).store@[k] by {
                assert(s1.contains_key(k));
            }
            assert forall|a: u64| #[trigger] pilot(self.store@, a) implies pilot(old(self).store@, a) by {
                if !(old(self).store@.contains_key(a) && !req.destroy@.contains(a)) {
                    let i = choose|i: int| 0 <= i < created.len() && #[trigger] created@[i] == a;
                    assert(self.store@[created[i]] == bodies[i].0);
                } else {
                    assert(s1.contains_key(a));
                }
            }
            assert forall|i: int| 0 <= i < created.len() implies !old(self).store@.contains_key(#[trigger] created[i])
                || req.destroy@.contains(created[i]) by {
                if old(self).store@.contains_key(created[i]) && !req.destroy@.contains(created[i]) {
                    assert(s1.contains_key(created[i]));
                }
            }
            assert forall|k: u64| #[trigger] req.destroy@.contains(k) implies !self.store@.contains_key(k) || created@.contains(k) by {
                assert(ids@.contains(k));
                assert(!s1.contains_key(k));
            }
            rocks@.unique_seq_to_set();
            bolts@.unique_seq_to_set();
            assert(rocks@.to_set() =~= req.rocks@.to_set());
            assert(bolts@.to_set() =~= req.bolts@.to_set());
            assert forall|r: RockRequest| #[trigger] req.rocks@.contains(r) implies exists|i: int| 0 <= i < created.len()
                && self.store@.contains_key(created[i]) && #[trigger] rock_body_for(self.store@[created[i]], r) by {
                assert(rocks@.contains(r));
                let k = choose|k: int| 0 <= k < rocks.len() && rocks@[k] == r;
                assert(self.store@[created[k]] == bodies[k].0);
            }
            assert forall|b: BoltRequest| #[trigger] req.bolts@.contains(b) implies exists|i: int| 0 <= i < created.len()
                && self.store@.contains_key(created[i]) && #[trigger] self.store@[created[i]] == bullet_body(b) by {
                assert(bolts@.contains(b));
                let k = choose|k: int| 0 <= k < bolts.len() && bolts@[k] == b;
                assert(self.store@[created[rocks.len() + k]] == bodies[rocks.len() + k].0);
            }
        }
        created
    }

    /// One resolution substep: integrate, take a snapshot, resolve every entity against
    /// it, apply the hits in order, sweep on clear-screen, apply the player's controls,
    /// then flush the queued requests. The game state changes only through the hits of the
    /// pass, and the clear-screen flag is down afterwards.
    #[verifier::rlimit(60)]
    pub fn substep(&mut self, c: &Controls, dt: i64, now: i64)
        requires
            old(self).wf(),
            0 <= dt <= MAX_STEP_MS,
            0 <= now <= TIME_LIMIT,
        ensures
            final(self).wf(),
            substep_rel(old(self).store@, old(self).game, final(self).store@, final(self).game, *c, dt as int),
            final(self).game.asteroid_cooldown == old(self).game.asteroid_cooldown,
    {
        let es = self.store.entities();
        assert forall|i: int| 0 <= i < es.len() implies body_ok(#[trigger] es[i].1) by {
            assert(self.store@.contains_key(es[i].0));
        }
        let ghost m0 = self.store@;
        let ghost dti = dt as int;
        let moved = integrate_all(&es, dt);
        assert(moved@ =~= moved_of(es@, dti));
        let snap = snapshot_of(&moved);
        assert(snap@ =~= snap_of(moved@));
        let (resolved, hits) = resolve_pass(&moved, &snap);
        assert(resolved@ =~= resolved_of(moved@, snap@));
        assert forall|i: int| 0 <= i < resolved.len() && #[trigger] self.store@.contains_key(resolved[i].0)
            implies resolved[i].1.controllable == self.store@[resolved[i].0].controllable by {
            assert(moved[i].0 == es[i].0);
            assert(self.store@[es[i].0] == es[i].1);
        }
        assert forall|a: int, b: int| 0 <= a < b < resolved.len() implies resolved[a].0 != resolved[b].0 by {
            assert(resolved[a].0 == es[a].0 && resolved[b].0 == es[b].0);
        }
        write_back(&mut self.store, &resolved);
        assert forall|k: int| 0 <= k < resolved.len() && #[trigger] self.store@.contains_key(resolved[k].0)
            implies resolved[k].1.controllable == self.store@[resolved[k].0].controllable by {
            assert(m0.contains_key(resolved[k].0));
            assert(self.store@[resolved[k].0].controllable == m0[resolved[k].0].controllable);
        }
        assert forall|a: u64, e: u64| #[trigger] pilot(self.store@, a) && #[trigger] pilot(self.store@, e) implies a == e by {
            assert(pilot(m0, a) && pilot(m0, e));
        }
        let mut req = Requests::new();
        apply_hits(&mut self.game, &mut req, &mut self.particles, &mut self.cues, &hits, now);
        let ghost angles = choose|angles: Seq<int>|
            angles.len() == hits.len() && (forall|i: int| 0 <= i < angles.len() ==> 0 <= #[trigger] angles[i] < 360)
                && req.rocks@ == Seq::<RockRequest>::empty() + rocks_after(hits@, angles);
        assert(req.rocks@ =~= rocks_after(hits@, angles));
        sweep(&mut self.game, &mut req, &mut self.particles, &snap, now);
        assert(req.destroy@ =~= destroyed_by(hits@, snap@, old(self).game));
        proof {
            crate::effects::lemma_game_after_keeps_cooldown(hits@, old(self).game);
        }
        assert forall|k: int| 0 <= k < resolved.len() implies self.store@.contains_key(#[trigger] resolved[k].0)
            && self.store@[resolved[k].0] == resolved[k].1 by {
            assert(resolved[k].0 == es[k].0);
            assert(m0.contains_key(es[k].0));
        }
        assert(req.bolts@.len() == 0);
        steer_ships(&mut self.store, &resolved, c, dt, &mut req, &mut self.particles, &mut self.cues, now);
        assert(self.store@.dom() =~= old(self).store@.dom());
        assert(req.bolts@ =~= bolts_of(resolved@, *c, dti));
        let ghost before = self.store@;
        let created = self.flush(&req);
        proof {
            let ms = moved_of(es@, dti);
            let s = snap_of(ms);
            let gone = destroyed_by(hits@, snap@, old(self).game);
            assert forall|k: u64| #[trigger] m0.contains_key(k) && !gone.contains(k) implies self.store@.contains_key(k)
                && self.store@[k] == piloted(resolved_body(k, moved_body(m0[k], dti), s), *c, dti) by {
                let i = choose|i: int| 0 <= i < es.len() && #[trigger] es@[i].0 == k;
                assert(resolved[i].0 == k);
                assert(before.contains_key(k));
                assert(before[k] == piloted(resolved[i].1, *c, dti));
            }
            assert(stepped(m0, old(self).game, self.store@, self.game, *c, dti, es@, angles, created@));
        }
    }

    /// One frame. While hitstun is above zero the frame only counts it down; otherwise the
    /// spawn cooldown advances (creating an asteroid when due) and three substeps run.
    /// Particles advance and expire every frame.
    pub fn frame(&mut self, c: &Controls, dt: i64, now: i64)
        requires
            old(self).wf(),
            0 <= dt <= MAX_STEP_MS,
            0 <= now <= TIME_LIMIT,
        ensures
            final(self).wf(),
            old(self).game.hitstun > 0 ==> final(self).store@ == old(self).store@ && final(self).game == (GameState {
                hitstun: (old(self).game.hitstun - 1) as u64,
                ..old(self).game
            }) && final(self).particles.particles_container@ == survivors(
                old(self).particles.particles_container@.map_values(|p: Particle| advanced(p, dt as int)),
                now as int,
            ),
            old(self).game.hitstun == 0 ==> exists|m0: Map<u64, Body>, m1: Map<u64, Body>, g1: GameState, m2: Map<u64, Body>, g2: GameState|
                #[trigger] framed(old(self).store@, old(self).game, m0, m1, g1, m2, g2, final(self).store@, final(self).game, *c, dt as int, now as int),
            old(self).game.hitstun == 0 ==> exists|mid: Seq<Particle>| final(self).particles.particles_container@
                == #[trigger] aged(mid, dt as int, now as int),
    {
        let ghost d = dt as int;
        if self.game.frame_runs() {
            let ghost cd = self.game.asteroid_cooldown;
            if self.game.spawn_due(dt) {
                self.create_asteroid(now);
            }
            let ghost m0 = self.store@;
            let ghost g0 = self.game;
            self.substep(c, dt, now);
            let ghost m1 = self.store@;
            let ghost g1 = self.game;
            self.substep(c, dt, now);
            let ghost m2 = self.store@;
            let ghost g2 = self.game;
            self.substep(c, dt, now);
            let ghost mid = self.particles.particles_container@;
            self.particles.update(dt, now);
            assert(framed(old(self).store@, old(self).game, m0, m1, g1, m2, g2, self.store@, self.game, *c, d, now as int));
            assert(self.particles.particles_container@ == aged(mid, d, now as int));
        } else {
            self.particles.update(dt, now);
        }
    }
}


} // verus!
