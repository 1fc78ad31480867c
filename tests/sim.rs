use asteroids::components::{Body, Collidable, CollidableType, Controllable, Draw, Position, Tint, Velocity};
use asteroids::controls::{steer, Controls};
use asteroids::effects::{BoltRequest, Requests, RockRequest};
use asteroids::queue::{dedup_bolts, dedup_ids, dedup_rocks};
use asteroids::sim::{
    asteroid_size, create_asteroid_point, create_bullet, drift_from, rock_shape_with, spawn_point_at, Simulation,
};
use asteroids::geometry::rotate_point;
use asteroids::store::Store;

fn idle() -> Controls {
    Controls { thrust: false, brake: false, turn_left: false, turn_right: false, fire: false }
}

fn still(x: i64, y: i64, r: i64, kind: CollidableType) -> Body {
    Body { position: Position(x, y, 0), velocity: Velocity(0, 0, 0), collidable: Collidable(r, kind), controllable: None }
}

fn dot() -> Draw {
    Draw(Tint::Rock, vec![])
}

#[test]
fn store_spawn_set_despawn() {
    let mut s = Store::new();
    assert!(s.entities().is_empty());
    let a = s.spawn(still(1, 2, 1000, CollidableType::ASTEROID), dot());
    let b = s.spawn(still(3, 4, 1000, CollidableType::BULLET), dot());
    assert_ne!(a, b);
    let mut all = s.entities();
    all.sort_by_key(|e| e.0);
    assert_eq!(all.len(), 2);
    s.set(a, still(9, 9, 2000, CollidableType::ASTEROID));
    assert!(s.entities().contains(&(a, still(9, 9, 2000, CollidableType::ASTEROID))));
    s.despawn(a);
    s.despawn(a);
    assert_eq!(s.entities(), vec![(b, still(3, 4, 1000, CollidableType::BULLET))]);
    s.set(a, still(0, 0, 1000, CollidableType::ASTEROID));
    assert_eq!(s.entities().len(), 1);
    let c = s.spawn(still(5, 5, 1000, CollidableType::ASTEROID), dot());
    assert_ne!(c, a);
    s.clear();
    assert!(s.entities().is_empty());
}

#[test]
fn reset_creates_one_ship() {
    let mut sim = Simulation::new();
    sim.game.score = 7;
    sim.world_reset();
    let es = sim.store.entities();
    assert_eq!(es.len(), 1);
    let ship = es[0].1;
    assert_eq!(ship.position, Position(128_000, 144_000, 0));
    assert_eq!(ship.collidable, Collidable(1000, CollidableType::PLAYER));
    assert_eq!(ship.controllable, Some(Controllable()));
    assert_eq!((sim.game.lives, sim.game.score, sim.game.high_score), (3, 0, 7));
    assert_eq!(sim.cues.len(), 1);
    sim.world_reset();
    assert_eq!(sim.store.entities().len(), 1);
}

#[test]
fn hitstun_frame_changes_nothing_but_the_counter() {
    let mut sim = Simulation::new();
    sim.world_reset();
    sim.game.hitstun = 3;
    let before = sim.store.entities();
    sim.frame(&idle(), 16, 1000);
    assert_eq!(sim.game.hitstun, 2);
    assert_eq!(sim.store.entities(), before);
}

#[test]
fn running_frame_spawns_and_moves() {
    let mut sim = Simulation::new();
    sim.world_reset();
    sim.frame(&idle(), 10, 1000);
    let es = sim.store.entities();
    assert_eq!(es.len(), 2);
    let ship = es.iter().find(|e| e.1.controllable.is_some()).unwrap().1;
    assert!(ship.position.1 > 140_000 || ship.position.1 < 40_000);
    assert_eq!(sim.game.asteroid_cooldown, 1990);
}

#[test]
fn shattered_parent_leaves_the_store() {
    let mut sim = Simulation::new();
    let rock = sim.store.spawn(still(100_000, 60_000, 5000, CollidableType::ASTEROID), dot());
    let bolt = sim.store.spawn(still(101_000, 60_000, 1000, CollidableType::BULLET), dot());
    sim.substep(&idle(), 0, 0);
    let es = sim.store.entities();
    assert!(es.iter().all(|e| e.0 != rock && e.0 != bolt));
    assert_eq!(es.len(), 2);
    assert!(es.iter().all(|e| e.1.collidable == Collidable(4000, CollidableType::ASTEROID)));
    assert_eq!(sim.game.score, 1);
}

#[test]
fn damage_clears_the_screen() {
    let mut sim = Simulation::new();
    sim.world_reset();
    let ship = sim.store.entities()[0].0;
    let ship_body = sim.store.entities()[0].1;
    let mut parked = ship_body;
    parked.position = Position(100_000, 60_000, 0);
    parked.velocity = Velocity(0, 0, 0);
    sim.store.set(ship, parked);
    sim.store.spawn(still(101_000, 60_000, 3000, CollidableType::ASTEROID), dot());
    sim.store.spawn(still(150_000, 90_000, 4000, CollidableType::ASTEROID), dot());
    sim.store.spawn(still(70_000, 40_000, 1000, CollidableType::BULLET), dot());
    sim.substep(&idle(), 0, 0);
    assert_eq!(sim.game.lives, 2);
    assert_eq!(sim.game.hitstun, 21);
    assert!(!sim.game.clear_screen);
    let es = sim.store.entities();
    assert_eq!(es.len(), 1);
    assert_eq!(es[0].0, ship);
}

#[test]
fn last_life_removes_the_ship() {
    let mut sim = Simulation::new();
    sim.world_reset();
    sim.game.lives = 1;
    let ship = sim.store.entities()[0].0;
    let mut parked = sim.store.entities()[0].1;
    parked.position = Position(100_000, 60_000, 0);
    sim.store.set(ship, parked);
    sim.store.spawn(still(100_500, 60_000, 3000, CollidableType::ASTEROID), dot());
    sim.substep(&idle(), 0, 0);
    assert_eq!(sim.game.lives, 0);
    assert!(sim.store.entities().is_empty());
}

#[test]
fn fire_creates_a_bullet_ahead() {
    let mut sim = Simulation::new();
    sim.world_reset();
    let ship = sim.store.entities()[0].0;
    let mut parked = sim.store.entities()[0].1;
    parked.position = Position(100_000, 60_000, 0);
    parked.velocity = Velocity(0, 0, 0);
    sim.store.set(ship, parked);
    let fire = Controls { fire: true, ..idle() };
    sim.substep(&fire, 0, 0);
    let es = sim.store.entities();
    assert_eq!(es.len(), 2);
    let bullet = es.iter().find(|e| e.0 != ship).unwrap().1;
    assert_eq!(bullet.position, Position(100_000, 58_000, 0));
    assert_eq!(bullet.velocity, Velocity(0, -20_000, 0));
    assert_eq!(bullet.collidable, Collidable(1000, CollidableType::BULLET));
}

#[test]
fn bullet_from_request() {
    let (b, d) = create_bullet(BoltRequest { x: 100_000, y: 50_000, heading: 90_000, vx: 100, vy: 0 });
    assert_eq!(b.position, Position(102_000, 50_000, 90_000));
    assert_eq!(b.velocity, Velocity(20_100, 0, 0));
    assert_eq!(d.0, Tint::Bolt);
}

#[test]
fn asteroid_point_has_given_size() {
    let (b, d) = create_asteroid_point((10_000, 20_000), 4500);
    assert_eq!(b.position, Position(10_000, 20_000, 0));
    assert_eq!(b.collidable, Collidable(4500, CollidableType::ASTEROID));
    assert!(b.velocity.0 >= -10_000 && b.velocity.0 < 10_000);
    assert_eq!(d.1.len(), 17);
    assert_eq!(d.1[0], d.1[16]);
}

#[test]
fn steering_formulas() {
    let v = Velocity(1000, -2000, 40_000);
    assert_eq!(steer(v, 0, &idle(), 10), Velocity(995, -1990, 39_000));
    let thrust = Controls { thrust: true, ..idle() };
    assert_eq!(steer(Velocity(0, 0, 0), 0, &thrust, 10), Velocity(0, -60, 0));
    let brake = Controls { brake: true, ..idle() };
    assert_eq!(steer(Velocity(1000, 0, 0), 0, &brake, 500), Velocity(497, 0, 0));
    let right = Controls { turn_right: true, ..idle() };
    assert_eq!(steer(Velocity(0, 0, 0), 0, &right, 10).2, 1350);
    let both = Controls { turn_right: true, turn_left: true, ..idle() };
    assert_eq!(steer(Velocity(0, 0, 0), 0, &both, 10).2, 0);
}

#[test]
fn queues_drop_duplicates() {
    assert_eq!(dedup_ids(&vec![3, 1, 3, 2, 1]), vec![3, 1, 2]);
    let r = RockRequest { x: 1, y: 2, radius: 3000 };
    let s = RockRequest { x: 1, y: 2, radius: 4000 };
    assert_eq!(dedup_rocks(&vec![r, s, r]), vec![r, s]);
    let b = BoltRequest { x: 0, y: 0, heading: 0, vx: 0, vy: 0 };
    assert_eq!(dedup_bolts(&vec![b, b]), vec![b]);
    let q = Requests::new();
    assert!(q.destroy.is_empty() && q.rocks.is_empty() && q.bolts.is_empty());
}

#[test]
fn ship_after_reset_and_half_second() {
    let mut sim = Simulation::new();
    sim.world_reset();
    sim.substep(&idle(), 500, 0);
    let es = sim.store.entities();
    assert_eq!(es.len(), 1);
    assert_eq!(es[0].1.position, Position(128_000, 29_000, 202_500));
    assert_eq!(es[0].1.velocity, Velocity(0, 19_900, 1_096_875));
}

#[test]
fn draws_decide_size_and_drift() {
    assert_eq!(asteroid_size(0), 3000);
    assert_eq!(asteroid_size(399), 6990);
    assert_eq!(asteroid_size(400), 3000);
    assert_eq!(drift_from(0), -10_000);
    assert_eq!(drift_from(19), 9000);
    assert_eq!(drift_from(25), -5000);
}

#[test]
fn spawn_point_follows_time() {
    // At t = 0 the angle is zero: the right end of the ellipse.
    assert_eq!(spawn_point_at(0), (384_000, 72_000));
    // 1000 ms: 7334 degrees, which is 134 degrees.
    let c = rotate_point((256_000, 0), 134_000);
    let s = rotate_point((144_000, 0), 134_000);
    assert_eq!(spawn_point_at(1000), (c.0 + 128_000, s.1 + 72_000));
}

#[test]
fn rock_outline_from_bumps() {
    let mut bumps = vec![false; 16];
    bumps[4] = true;
    let d = rock_shape_with(3000, &bumps);
    assert_eq!(d.0, Tint::Rock);
    assert_eq!(d.1.len(), 17);
    assert_eq!(d.1[0], (0, 3000));
    assert_eq!(d.1[4], rotate_point((0, 4000), 90_000));
    assert_eq!(d.1[4], (-4000, 0));
    assert_eq!(d.1[2], rotate_point((0, 3000), 45_000));
    assert_eq!(d.1[16], d.1[0]);
}

#[test]
fn frame_ages_particles_during_hitstun() {
    let mut sim = Simulation::new();
    sim.world_reset();
    sim.game.hitstun = 1;
    sim.substep(&Controls { thrust: true, ..idle() }, 0, 0);
    assert_eq!(sim.particles.particles_container.len(), 1);
    sim.frame(&idle(), 10, 2000);
    assert!(sim.particles.particles_container.is_empty());
}
