use vstd::prelude::*;
use crate::components::{Body, CollidableType, Collidable, Position, Velocity, FULL_TURN};
use crate::geometry::{div_floor, sq_dist};
use crate::physics::{
    body_ok, overlaps, touching, within, wrap_position, wrapped_position, POS_LIMIT,
    RADIUS_LIMIT, VEL_LIMIT,
};

verus! {

/// What a collision does to the entity being resolved, given the other side's kind.
#[derive(Debug, Clone, Copy, PartialEq, Eq, Structural)]
pub enum Response {
    Ignore,
    Damage,
    Bounce,
    Shatter,
    Expire,
}

/// The resolution table over ordered kind pairs (resolved entity, other entity).
/// It is not symmetric: a player touching an asteroid is damaged, while an asteroid
/// touching a player is left alone.
pub open spec fn policy(e: CollidableType, o: CollidableType) -> Response {
    match e {
        CollidableType::PLAYER => match o {
            CollidableType::PLAYER => Response::Ignore,
            _ => Response::Damage,
        },
        CollidableType::ASTEROID => match o {
            CollidableType::PLAYER => Response::Ignore,
            CollidableType::ASTEROID => Response::Bounce,
            CollidableType::BULLET => Response::Shatter,
        },
        CollidableType::BULLET => Response::Expire,
    }
}

/// Looks up the resolution table.
pub fn response(e: CollidableType, o: CollidableType) -> (r: Response)
    ensures
        r == policy(e, o),
{
    match e {
        CollidableType::PLAYER => match o {
            CollidableType::PLAYER => Response::Ignore,
            _ => Response::Damage,
        },
        CollidableType::ASTEROID => match o {
            CollidableType::PLAYER => Response::Ignore,
            CollidableType::ASTEROID => Response::Bounce,
            CollidableType::BULLET => Response::Shatter,
        },
        CollidableType::BULLET => Response::Expire,
    }
}

/// A frozen copy of one collidable entity, taken before a resolution pass.
#[derive(Debug, Clone, Copy, PartialEq, Eq, Structural)]
pub struct SnapEntry {
    pub id: u64,
    pub position: Position,
    pub collidable: Collidable,
}

/// An effect of a collision that reaches beyond the resolved entity itself.
#[derive(Debug, Clone, Copy, PartialEq, Eq, Structural)]
pub enum Hit {
    /// The player `id` at (x, y) was hit by an entity of kind `by`.
    Damaged { id: u64, x: i64, y: i64, by: CollidableType },
    /// The asteroid `id` of the given radius at (x, y) was hit by a bullet.
    Shattered { id: u64, x: i64, y: i64, radius: i64 },
    /// The bullet `id` at (x, y) hit something.
    Spent { id: u64, x: i64, y: i64 },
}

/// Bounds of a hit coming out of a resolution pass.
pub open spec fn hit_ok(h: Hit) -> bool {
    match h {
        Hit::Damaged { x, y, .. } => within(x as int, POS_LIMIT / 2) && within(y as int, POS_LIMIT / 2),
        Hit::Shattered { x, y, radius, .. } => within(x as int, POS_LIMIT / 2) && within(y as int, POS_LIMIT / 2)
            && 0 < radius <= RADIUS_LIMIT,
        Hit::Spent { x, y, .. } => within(x as int, POS_LIMIT / 2) && within(y as int, POS_LIMIT / 2),
    }
}

/// Positions of snapshot entries stay within this bound.
pub open spec fn moved_within(p: Position) -> bool {
    within(p.0 as int, POS_LIMIT + VEL_LIMIT) && within(p.1 as int, POS_LIMIT + VEL_LIMIT)
}

pub open spec fn entry_ok(o: SnapEntry) -> bool {
    moved_within(o.position) && 0 < o.collidable.0 <= RADIUS_LIMIT
}

/// Bounds of a body after integration and before wrapping.
pub open spec fn moved_ok(b: Body) -> bool {
    &&& moved_within(b.position)
    &&& 0 <= b.position.2 < FULL_TURN
    &&& within(b.velocity.0 as int, VEL_LIMIT as int)
    &&& within(b.velocity.1 as int, VEL_LIMIT as int)
    &&& within(b.velocity.2 as int, VEL_LIMIT as int)
    &&& 0 < b.collidable.0 <= RADIUS_LIMIT
}

/// Whether `e` (identified by `id`) collides with the snapshot entry `o`.
pub open spec fn meets(id: u64, e: Body, o: SnapEntry) -> bool {
    o.id != id && touching(e.position, e.collidable.0 as int, o.position, o.collidable.0 as int)
}

/// The effect, if any, of `e` meeting `o`.
pub open spec fn hit_of(id: u64, e: Body, o: SnapEntry) -> Option<Hit> {
    if meets(id, e, o) {
        match policy(e.collidable.1, o.collidable.1) {
            Response::Damage => Some(
                Hit::Damaged { id, x: e.position.0, y: e.position.1, by: o.collidable.1 },
            ),
            Response::Shatter => Some(
                Hit::Shattered { id, x: e.position.0, y: e.position.1, radius: e.collidable.0 },
            ),
            Response::Expire => Some(Hit::Spent { id, x: e.position.0, y: e.position.1 }),
            _ => None,
        }
    } else {
        None
    }
}

/// The effects of `e` against the snapshot `s`, in snapshot order.
pub open spec fn hits_of(id: u64, e: Body, s: Seq<SnapEntry>) -> Seq<Hit>
    decreases s.len(),
{
    if s.len() == 0 {
        Seq::empty()
    } else {
        let prev = hits_of(id, e, s.drop_last());
        match hit_of(id, e, s.last()) {
            Some(h) => prev.push(h),
            None => prev,
        }
    }
}

/// Velocity that an asteroid takes on when it meets another: half the offset between them.
pub open spec fn bounce_velocity(e: Body, o: SnapEntry) -> Velocity {
    Velocity(
        ((e.position.0 - o.position.0) / 2) as i64,
        ((e.position.1 - o.position.1) / 2) as i64,
        e.velocity.2,
    )
}

/// Velocity of `e` after meeting the snapshot `s`: the last bounce wins.
pub open spec fn velocity_after(id: u64, e: Body, s: Seq<SnapEntry>) -> Velocity
    decreases s.len(),
{
    if s.len() == 0 {
        e.velocity
    } else if meets(id, e, s.last()) && policy(e.collidable.1, s.last().collidable.1)
        == Response::Bounce {
        bounce_velocity(e, s.last())
    } else {
        velocity_after(id, e, s.drop_last())
    }
}

/// `b` with its position wrapped by its own radius.
pub open spec fn wrapped_body(b: Body) -> Body {
    Body { position: wrapped_position(b.position, b.collidable.0 as int), ..b }
}

/// The body of entity `id` after resolution against the snapshot `s`.
pub open spec fn resolved_body(id: u64, b: Body, s: Seq<SnapEntry>) -> Body {
    Body { velocity: velocity_after(id, wrapped_body(b), s), ..wrapped_body(b) }
}

/// The effects of entity `id` against the snapshot `s`.
pub open spec fn entity_hits(id: u64, b: Body, s: Seq<SnapEntry>) -> Seq<Hit> {
    hits_of(id, wrapped_body(b), s)
}

/// Resolves one entity against a snapshot: wraps its position, tests it against every other
/// entry and collects the effects. Reads nothing but its arguments.
pub fn resolve_entity(id: u64, b: Body, s: &Vec<SnapEntry>) -> (r: (Body, Vec<Hit>))
    requires
        moved_ok(b),
        forall|i: int| 0 <= i < s.len() ==> entry_ok(#[trigger] s[i]),
    ensures
        r.0 == resolved_body(id, b, s@),
        r.1@ == entity_hits(id, b, s@),
        body_ok(r.0),
        forall|i: int| 0 <= i < r.1.len() ==> hit_ok(#[trigger] r.1[i]),
{
    let w = Body { position: wrap_position(b.position, b.collidable.0), ..b };
    assert(w == wrapped_body(b));
    let mut vel: Velocity = w.velocity;
    let mut hits: Vec<Hit> = Vec::new();
    let mut i: usize = 0;
    while i < s.len()
        invariant
            i <= s.len(),
            w == wrapped_body(b),
            moved_ok(b),
            forall|k: int| 0 <= k < s.len() ==> entry_ok(#[trigger] s[k]),
            vel == velocity_after(id, w, s@.take(i as int)),
            hits@ == hits_of(id, w, s@.take(i as int)),
            within(vel.0 as int, VEL_LIMIT as int),
            within(vel.1 as int, VEL_LIMIT as int),
            vel.2 == b.velocity.2,
            forall|k: int| 0 <= k < hits.len() ==> hit_ok(#[trigger] hits[k]),
        decreases s.len() - i,
    {
        let o = s[i];
        assert(s@.take(i as int + 1).drop_last() == s@.take(i as int));
        assert(s@.take(i as int + 1).last() == o);
        if o.id != id && overlaps(w.position, w.collidable.0, o.position, o.collidable.0) {
            match response(w.collidable.1, o.collidable.1) {
                Response::Damage => {
                    hits.push(Hit::Damaged { id, x: w.position.0, y: w.position.1, by: o.collidable.1 });
                },
                Response::Shatter => {
                    hits.push(
                        Hit::Shattered { id, x: w.position.0, y: w.position.1, radius: w.collidable.0 },
                    );
                },
                Response::Expire => {
                    hits.push(Hit::Spent { id, x: w.position.0, y: w.position.1 });
                },
                Response::Bounce => {
                    vel = Velocity(
                        div_floor(w.position.0 - o.position.0, 2),
                        div_floor(w.position.1 - o.position.1, 2),
                        vel.2,
                    );
                },
                Response::Ignore => {},
            }
        }
        i = i + 1;
    }
    assert(s@.take(s.len() as int) == s@);
    (Body { velocity: vel, ..w }, hits)
}

/// The effects of a whole pass: each entity of `es` in turn against the same snapshot.
pub open spec fn pass_hits(es: Seq<(u64, Body)>, s: Seq<SnapEntry>) -> Seq<Hit>
    decreases es.len(),
{
    if es.len() == 0 {
        Seq::empty()
    } else {
        pass_hits(es.drop_last(), s) + entity_hits(es.last().0, es.last().1, s)
    }
}

/// Resolves every entity of `es` against the snapshot `s`. The snapshot is never changed
/// during the pass, and each entity's result is computed from its own body and `s` alone.
pub fn resolve_pass(es: &Vec<(u64, Body)>, s: &Vec<SnapEntry>) -> (r: (Vec<(u64, Body)>, Vec<Hit>))
    requires
        forall|i: int| 0 <= i < es.len() ==> moved_ok(#[trigger] es[i].1),
        forall|i: int| 0 <= i < s.len() ==> entry_ok(#[trigger] s[i]),
    ensures
        r.0.len() == es.len(),
        forall|i: int|
            0 <= i < es.len() ==> #[trigger] r.0[i] == (es[i].0, resolved_body(es[i].0, es[i].1, s@)),
        forall|i: int| 0 <= i < es.len() ==> body_ok(#[trigger] r.0[i].1),
        r.1@ == pass_hits(es@, s@),
        forall|i: int| 0 <= i < r.1.len() ==> hit_ok(#[trigger] r.1[i]),
{
    let mut out: Vec<(u64, Body)> = Vec::new();
    let mut hits: Vec<Hit> = Vec::new();
    let mut i: usize = 0;
    while i < es.len()
        invariant
            i <= es.len(),
            out.len() == i,
            forall|k: int| 0 <= k < es.len() ==> moved_ok(#[trigger] es[k].1),
            forall|k: int| 0 <= k < s.len() ==> entry_ok(#[trigger] s[k]),
            forall|k: int|
                0 <= k < i ==> #[trigger] out[k] == (es[k].0, resolved_body(es[k].0, es[k].1, s@)),
            forall|k: int| 0 <= k < i ==> body_ok(#[trigger] out[k].1),
            hits@ == pass_hits(es@.take(i as int), s@),
            forall|k: int| 0 <= k < hits.len() ==> hit_ok(#[trigger] hits[k]),
        decreases es.len() - i,
    {
        let (id, b) = es[i];
        let (nb, mut h) = resolve_entity(id, b, s);
        assert(es@.take(i as int + 1).drop_last() == es@.take(i as int));
        assert(es@.take(i as int + 1).last() == es[i as int]);
        out.push((id, nb));
        hits.append(&mut h);
        i = i + 1;
    }
    assert(es@.take(es.len() as int) == es@);
    (out, hits)
}

/// Snapshot isolation: in a pass, the effects produced for the entities after any point
/// are exactly those they would produce in a pass of their own. Nothing that earlier
/// entities request during the pass reaches the resolution of later ones.
pub proof fn lemma_pass_isolation(es: Seq<(u64, Body)>, s: Seq<SnapEntry>, i: int)
    requires
        0 <= i <= es.len(),
    ensures
        pass_hits(es, s) == pass_hits(es.take(i), s) + pass_hits(es.skip(i), s),
    decreases es.len(),
{
    if i == es.len() {
        assert(es.take(i) == es);
        assert(pass_hits(es.skip(i), s) == Seq::<Hit>::empty());
        assert(pass_hits(es, s) + Seq::<Hit>::empty() == pass_hits(es, s));
    } else {
        let d = es.drop_last();
        lemma_pass_isolation(d, s, i);
        assert(d.take(i) == es.take(i));
        assert(es.skip(i).drop_last() == d.skip(i));
        assert(es.skip(i).last() == es.last());
        assert(pass_hits(es.skip(i), s) == pass_hits(d.skip(i), s) + entity_hits(es.last().0, es.last().1, s));
        assert(pass_hits(es, s) == pass_hits(d, s) + entity_hits(es.last().0, es.last().1, s));
        vstd::seq_lib::lemma_concat_associative(pass_hits(es.take(i), s), pass_hits(d.skip(i), s), entity_hits(es.last().0, es.last().1, s));
    }
}

/// The collision predicate is symmetric in its two sides, and away from the band between
/// the sum of the squared radii and the square of the summed radii it agrees with the
/// test against the square of the summed radii.
pub proof fn lemma_collision_predicate(a: Position, ra: int, b: Position, rb: int)
    requires
        ra >= 0,
        rb >= 0,
    ensures
        touching(a, ra, b, rb) == touching(b, rb, a, ra),
        !(ra * ra + rb * rb <= sq_dist(a.0 as int, a.1 as int, b.0 as int, b.1 as int) < (ra + rb) * (ra + rb))
            ==> (touching(a, ra, b, rb) == (sq_dist(a.0 as int, a.1 as int, b.0 as int, b.1 as int) < (ra + rb) * (ra + rb))),
{
    assert(sq_dist(a.0 as int, a.1 as int, b.0 as int, b.1 as int) == sq_dist(b.0 as int, b.1 as int, a.0 as int, a.1 as int)) by (nonlinear_arith);
    assert(ra * ra + rb * rb <= (ra + rb) * (ra + rb)) by (nonlinear_arith)
        requires ra >= 0, rb >= 0;
}

/// A hit is among the effects of `e` against `s` exactly when some entry of `s` produces it,
/// so the set of effects does not depend on the order of the snapshot.
pub proof fn lemma_hits_members(id: u64, e: Body, s: Seq<SnapEntry>, h: Hit)
    ensures
        hits_of(id, e, s).contains(h) <==> exists|i: int| 0 <= i < s.len() && hit_of(id, e, #[trigger] s[i]) == Some(h),
    decreases s.len(),
{
    if s.len() > 0 {
        let d = s.drop_last();
        lemma_hits_members(id, e, d, h);
        if hits_of(id, e, s).contains(h) {
            if hits_of(id, e, d).contains(h) {
                let i = choose|i: int| 0 <= i < d.len() && hit_of(id, e, #[trigger] d[i]) == Some(h);
                assert(s[i] == d[i]);
            } else {
                let k = choose|k: int| 0 <= k < hits_of(id, e, s).len() && hits_of(id, e, s)[k] == h;
                assert(hit_of(id, e, s[s.len() - 1]) == Some(h));
            }
        }
        if exists|i: int| 0 <= i < s.len() && hit_of(id, e, #[trigger] s[i]) == Some(h) {
            let i = choose|i: int| 0 <= i < s.len() && hit_of(id, e, #[trigger] s[i]) == Some(h);
            if i < s.len() - 1 {
                assert(d[i] == s[i]);
                let k = choose|k: int| 0 <= k < hits_of(id, e, d).len() && hits_of(id, e, d)[k] == h;
                assert(hits_of(id, e, s)[k] == h);
            } else {
                assert(hits_of(id, e, s) == hits_of(id, e, d).push(h));
                assert(hits_of(id, e, s)[hits_of(id, e, d).len() as int] == h);
            }
        }
    }
}

/// Two snapshots holding the same entries, in whatever order, give the same set of effects.
pub proof fn lemma_hits_order_free(id: u64, e: Body, s1: Seq<SnapEntry>, s2: Seq<SnapEntry>)
    requires
        s1.to_set() == s2.to_set(),
    ensures
        hits_of(id, e, s1).to_set() == hits_of(id, e, s2).to_set(),
{
    assert forall|h: Hit| hits_of(id, e, s1).to_set().contains(h) <==> hits_of(id, e, s2).to_set().contains(h) by {
        lemma_hits_members(id, e, s1, h);
        lemma_hits_members(id, e, s2, h);
        if exists|i: int| 0 <= i < s1.len() && hit_of(id, e, #[trigger] s1[i]) == Some(h) {
            let i = choose|i: int| 0 <= i < s1.len() && hit_of(id, e, #[trigger] s1[i]) == Some(h);
            assert(s1.to_set().contains(s1[i]));
            assert(s2.contains(s1[i]));
        }
        if exists|i: int| 0 <= i < s2.len() && hit_of(id, e, #[trigger] s2[i]) == Some(h) {
            let i = choose|i: int| 0 <= i < s2.len() && hit_of(id, e, #[trigger] s2[i]) == Some(h);
            assert(s2.to_set().contains(s2[i]));
            assert(s1.contains(s2[i]));
        }
    }
    assert(hits_of(id, e, s1).to_set() =~= hits_of(id, e, s2).to_set());
}

} // verus!
