use asteroids::collision::{resolve_entity, resolve_pass, response, Hit, Response, SnapEntry};
use asteroids::components::{Body, Collidable, CollidableType, Controllable, Position, Velocity};

fn body(x: i64, y: i64, r: i64, kind: CollidableType) -> Body {
    Body {
        position: Position(x, y, 0),
        velocity: Velocity(0, 0, 0),
        collidable: Collidable(r, kind),
        controllable: None,
    }
}

fn entry(id: u64, b: &Body) -> SnapEntry {
    SnapEntry { id, position: b.position, collidable: b.collidable }
}

#[test]
fn resolution_table_is_asymmetric() {
    assert_eq!(response(CollidableType::PLAYER, CollidableType::PLAYER), Response::Ignore);
    assert_eq!(response(CollidableType::PLAYER, CollidableType::ASTEROID), Response::Damage);
    assert_eq!(response(CollidableType::PLAYER, CollidableType::BULLET), Response::Damage);
    assert_eq!(response(CollidableType::ASTEROID, CollidableType::PLAYER), Response::Ignore);
    assert_eq!(response(CollidableType::ASTEROID, CollidableType::ASTEROID), Response::Bounce);
    assert_eq!(response(CollidableType::ASTEROID, CollidableType::BULLET), Response::Shatter);
    assert_eq!(response(CollidableType::BULLET, CollidableType::PLAYER), Response::Expire);
    assert_eq!(response(CollidableType::BULLET, CollidableType::ASTEROID), Response::Expire);
    assert_eq!(response(CollidableType::BULLET, CollidableType::BULLET), Response::Expire);
}

#[test]
fn self_collision_is_excluded() {
    let a = body(100_000, 50_000, 5000, CollidableType::ASTEROID);
    let s = vec![entry(7, &a)];
    let (nb, hits) = resolve_entity(7, a, &s);
    assert!(hits.is_empty());
    assert_eq!(nb, a);
}

#[test]
fn player_hit_by_asteroid_is_damaged() {
    let mut p = body(100_000, 50_000, 1000, CollidableType::PLAYER);
    p.controllable = Some(Controllable());
    let a = body(101_000, 50_000, 4000, CollidableType::ASTEROID);
    let s = vec![entry(1, &p), entry(2, &a)];
    let (_, hits) = resolve_entity(1, p, &s);
    assert_eq!(hits, vec![Hit::Damaged { id: 1, x: 100_000, y: 50_000, by: CollidableType::ASTEROID }]);
    let (_, back) = resolve_entity(2, a, &s);
    assert!(back.is_empty());
}

#[test]
fn asteroids_bounce_apart() {
    let a = body(100_000, 50_000, 4000, CollidableType::ASTEROID);
    let b = body(103_000, 46_001, 4000, CollidableType::ASTEROID);
    let s = vec![entry(1, &a), entry(2, &b)];
    let (na, hits) = resolve_entity(1, a, &s);
    assert!(hits.is_empty());
    assert_eq!(na.velocity, Velocity(-1500, 1999, 0));
}

#[test]
fn wrap_happens_before_the_test() {
    let a = body(210_000, 50_000, 4000, CollidableType::BULLET);
    let s = vec![entry(1, &a)];
    let (na, _) = resolve_entity(1, a, &s);
    assert_eq!(na.position, Position(51_000, 50_000, 0));
}

#[test]
fn pass_does_not_see_its_own_requests() {
    // A bullet and an asteroid that touch: the bullet expires, the asteroid shatters, and
    // the asteroid's result is what it would be in a pass of its own.
    let bullet = body(100_000, 50_000, 1000, CollidableType::BULLET);
    let rock = body(102_000, 50_000, 5000, CollidableType::ASTEROID);
    let s = vec![entry(1, &bullet), entry(2, &rock)];
    let es = vec![(1u64, bullet), (2u64, rock)];
    let (bodies, hits) = resolve_pass(&es, &s);
    assert_eq!(
        hits,
        vec![
            Hit::Spent { id: 1, x: 100_000, y: 50_000 },
            Hit::Shattered { id: 2, x: 102_000, y: 50_000, radius: 5000 },
        ]
    );
    let (alone_body, alone_hits) = resolve_entity(2, rock, &s);
    assert_eq!(bodies[1], (2, alone_body));
    assert_eq!(hits[1..].to_vec(), alone_hits);
    let (_, later) = resolve_pass(&vec![(2u64, rock)], &s);
    assert_eq!(later, alone_hits);
}

#[test]
fn hits_independent_of_snapshot_order() {
    let p = body(100_000, 50_000, 1000, CollidableType::PLAYER);
    let a = body(101_000, 50_000, 4000, CollidableType::ASTEROID);
    let b = body(99_500, 50_000, 1000, CollidableType::BULLET);
    let s1 = vec![entry(1, &p), entry(2, &a), entry(3, &b)];
    let s2 = vec![entry(3, &b), entry(1, &p), entry(2, &a)];
    let (_, h1) = resolve_entity(1, p, &s1);
    let (_, h2) = resolve_entity(1, p, &s2);
    assert_eq!(h1.len(), 2);
    assert!(h1.iter().all(|h| h2.contains(h)));
    assert!(h2.iter().all(|h| h1.contains(h)));
}
