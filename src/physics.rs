use vstd::prelude::*;
use crate::components::{Position, Velocity, Body, FULL_TURN, UNIT};
use crate::geometry::{div_floor, square_distance, sq_dist};

verus! {

/// Largest coordinate magnitude of a stored entity (thousandths of a unit).
pub const POS_LIMIT: i64 = 1_000_000_000;

/// Largest velocity magnitude of a stored entity, on each axis.
pub const VEL_LIMIT: i64 = 10_000_000_000;

/// Largest hitbox radius (thousandths of a unit).
pub const RADIUS_LIMIT: i64 = 1_000_000;

/// Whole degrees in a full turn.
pub const FULL_TURN_DEGREES: i64 = 360;

/// Longest time step, in milliseconds. Steps are capped at one second so that every
/// position, velocity and product of them fits the fixed-point integers; a front end
/// with a longer frame splits or shortens it.
pub const MAX_STEP_MS: i64 = 1000;

/// Playfield bounds, in thousandths of a unit.
pub const LEFT: i64 = 55_000;
pub const RIGHT: i64 = 200_000;
pub const TOP: i64 = 30_000;
pub const BOTTOM: i64 = 115_000;

pub open spec fn within(v: int, limit: int) -> bool {
    -limit <= v <= limit
}

/// The bounds every stored body keeps.
pub open spec fn body_ok(b: Body) -> bool {
    &&& within(b.position.0 as int, POS_LIMIT as int)
    &&& within(b.position.1 as int, POS_LIMIT as int)
    &&& 0 <= b.position.2 < FULL_TURN
    &&& within(b.velocity.0 as int, VEL_LIMIT as int)
    &&& within(b.velocity.1 as int, VEL_LIMIT as int)
    &&& within(b.velocity.2 as int, VEL_LIMIT as int)
    &&& 0 < b.collidable.0 <= RADIUS_LIMIT
}

/// Euclidean remainder of `a` by a positive `m`.
pub fn modulo(a: i64, m: i64) -> (r: i64)
    requires
        m > 0,
        a > i64::MIN,
        within(a as int, 1_000_000_000_000_000),
        m <= 1_000_000_000,
    ensures
        r == a % m,
        0 <= r < m,
{
    let q: i64 = div_floor(a, m);
    proof {
        vstd::arithmetic::div_mod::lemma_fundamental_div_mod(a as int, m as int);
        assert(within(q * m, 1_000_000_001_000_000_000int)) by (nonlinear_arith)
            requires
                a == m * q + a % m,
                0 <= a % m < m,
                within(a as int, 1_000_000_000_000_000),
                m <= 1_000_000_000,
        ;
    }
    a - q * m
}

/// Position after moving with velocity `v` for `dt` milliseconds.
pub open spec fn integrated(p: Position, v: Velocity, dt: int) -> Position {
    Position(
        (p.0 + v.0 * dt / 1000) as i64,
        (p.1 + v.1 * dt / 1000) as i64,
        ((p.2 + v.2 * dt / 1000) % (FULL_TURN as int)) as i64,
    )
}

/// Advances a position by a velocity over `dt` milliseconds; the heading wraps modulo a
/// full turn.
pub fn integrate(p: Position, v: Velocity, dt: i64) -> (r: Position)
    requires
        within(p.0 as int, POS_LIMIT as int),
        within(p.1 as int, POS_LIMIT as int),
        0 <= p.2 < FULL_TURN,
        within(v.0 as int, VEL_LIMIT as int),
        within(v.1 as int, VEL_LIMIT as int),
        within(v.2 as int, VEL_LIMIT as int),
        0 <= dt <= MAX_STEP_MS,
    ensures
        r == integrated(p, v, dt as int),
        r.0 == p.0 + v.0 * dt / 1000,
        r.1 == p.1 + v.1 * dt / 1000,
        0 <= r.2 < FULL_TURN,
        within(r.0 as int, POS_LIMIT + VEL_LIMIT),
        within(r.1 as int, POS_LIMIT + VEL_LIMIT),
{
    proof {
        lemma_step_bound(v.0 as int, dt as int);
        lemma_step_bound(v.1 as int, dt as int);
        lemma_step_bound(v.2 as int, dt as int);
    }
    let dx: i64 = div_floor(v.0 * dt, UNIT);
    let dy: i64 = div_floor(v.1 * dt, UNIT);
    let dh: i64 = div_floor(v.2 * dt, UNIT);
    let h: i64 = modulo(p.2 + dh, FULL_TURN);
    Position(p.0 + dx, p.1 + dy, h)
}

proof fn lemma_step_bound(v: int, dt: int)
    requires
        within(v, VEL_LIMIT as int),
        0 <= dt <= MAX_STEP_MS,
    ensures
        within(v * dt, VEL_LIMIT * MAX_STEP_MS),
        within(v * dt / 1000, VEL_LIMIT as int),
{
    assert(within(v * dt, VEL_LIMIT * MAX_STEP_MS)) by (nonlinear_arith)
        requires
            within(v, VEL_LIMIT as int),
            0 <= dt <= MAX_STEP_MS,
    ;
    vstd::arithmetic::div_mod::lemma_fundamental_div_mod(v * dt, 1000);
}

/// One coordinate after toroidal wrapping against [lo, hi] with margin `r`.
pub open spec fn wrapped(c: int, r: int, lo: int, hi: int) -> int {
    let c1 = if c > hi + r { lo - r } else { c };
    if c1 < lo - r { hi + r } else { c1 }
}

/// Wraps one coordinate: past `hi + r` it re-enters at `lo - r`, before `lo - r` at `hi + r`.
pub fn wrap_axis(c: i64, r: i64, lo: i64, hi: i64) -> (w: i64)
    requires
        0 <= r <= RADIUS_LIMIT,
        0 <= lo <= hi <= POS_LIMIT,
    ensures
        w == wrapped(c as int, r as int, lo as int, hi as int),
        lo - r <= w <= hi + r,
{
    let mut w: i64 = c;
    if w > hi + r {
        w = lo - r;
    }
    if w < lo - r {
        w = hi + r;
    }
    w
}

/// Position after wrapping to the playfield with margin `r` (heading unchanged).
pub open spec fn wrapped_position(p: Position, r: int) -> Position {
    Position(
        wrapped(p.0 as int, r, LEFT as int, RIGHT as int) as i64,
        wrapped(p.1 as int, r, TOP as int, BOTTOM as int) as i64,
        p.2,
    )
}

/// Wraps a position to the playfield, with the entity's own radius as margin.
pub fn wrap_position(p: Position, r: i64) -> (w: Position)
    requires
        0 <= r <= RADIUS_LIMIT,
    ensures
        w == wrapped_position(p, r as int),
        LEFT - r <= w.0 <= RIGHT + r,
        TOP - r <= w.1 <= BOTTOM + r,
{
    Position(wrap_axis(p.0, r, LEFT, RIGHT), wrap_axis(p.1, r, TOP, BOTTOM), p.2)
}

/// Whether two circles overlap: squared distance below the sum of the squared radii.
pub open spec fn touching(a: Position, ra: int, b: Position, rb: int) -> bool {
    sq_dist(a.0 as int, a.1 as int, b.0 as int, b.1 as int) < ra * ra + rb * rb
}

/// Collision test between a circle of radius `ra` at `a` and one of radius `rb` at `b`.
pub fn overlaps(a: Position, ra: i64, b: Position, rb: i64) -> (r: bool)
    requires
        within(a.0 as int, 2 * (POS_LIMIT + VEL_LIMIT)),
        within(a.1 as int, 2 * (POS_LIMIT + VEL_LIMIT)),
        within(b.0 as int, 2 * (POS_LIMIT + VEL_LIMIT)),
        within(b.1 as int, 2 * (POS_LIMIT + VEL_LIMIT)),
        0 <= ra <= RADIUS_LIMIT,
        0 <= rb <= RADIUS_LIMIT,
    ensures
        r == touching(a, ra as int, b, rb as int),
{
    let d: i128 = square_distance(a.0, a.1, b.0, b.1);
    let (a2, b2): (i128, i128) = (ra as i128, rb as i128);
    assert(a2 * a2 <= 1_000_000_000_000 && b2 * b2 <= 1_000_000_000_000) by (nonlinear_arith)
        requires 0 <= a2 <= 1_000_000, 0 <= b2 <= 1_000_000;
    let rr: i128 = a2 * a2 + b2 * b2;
    d < rr
}

} // verus!
