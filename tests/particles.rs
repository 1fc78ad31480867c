use asteroids::particles::{Emission, ParticleStorage, Shade};

fn emission(age: i64, age_variance: i64, spread: i64) -> Emission {
    Emission {
        position: (100_000, 50_000),
        velocity: (1000, -2000),
        drag: 500,
        size: 1000,
        color: Shade::Dust,
        age,
        position_variance: (spread, spread),
        velocity_variance: (0, 0),
        size_variance: 0,
        age_variance,
    }
}

#[test]
fn particle_lives_for_its_age() {
    let t0: i64 = 10_000;
    let mut ps = ParticleStorage::new();
    ps.create_particle(1, &emission(2000, 0, 0), t0);
    let p = ps.particles_container[0];
    assert_eq!((p.birthtime, p.deathtime), (t0, t0 + 2000));
    for t in [t0, t0 + 1, t0 + 1999] {
        let mut copy = ps.clone();
        copy.update(0, t);
        assert_eq!(copy.particles_container.len(), 1);
    }
    for t in [t0 + 2000, t0 + 2001, t0 + 100_000] {
        let mut copy = ps.clone();
        copy.update(0, t);
        assert!(copy.particles_container.is_empty());
    }
}

#[test]
fn particles_move_then_drag() {
    let mut ps = ParticleStorage::new();
    ps.create_particle(1, &emission(2000, 0, 0), 0);
    ps.update(500, 100);
    let p = ps.particles_container[0];
    assert_eq!(p.position, (100_500, 49_000));
    assert_eq!(p.velocity, (500, -1000));
}

#[test]
fn count_below_one_emits_nothing() {
    let mut ps = ParticleStorage::new();
    ps.create_particle(0, &emission(2000, 0, 0), 0);
    ps.create_particle(-3, &emission(2000, 0, 0), 0);
    assert!(ps.particles_container.is_empty());
    ps.create_particle(5, &emission(2000, 0, 0), 0);
    assert_eq!(ps.particles_container.len(), 5);
}

#[test]
fn jitter_stays_within_variance_and_varies() {
    let mut ps = ParticleStorage::new();
    ps.create_particle(64, &emission(1000, 200, 3000), 0);
    let mut distinct = std::collections::HashSet::new();
    for p in &ps.particles_container {
        assert!((97_000..=103_000).contains(&p.position.0));
        assert!((47_000..=53_000).contains(&p.position.1));
        assert!((800..=1200).contains(&p.deathtime));
        distinct.insert(p.position);
    }
    assert!(distinct.len() > 1);
    assert!(ps.particles_container.iter().any(|p| p.position.0 != 97_000));
}

#[test]
fn expired_particles_are_purged_in_order() {
    let mut ps = ParticleStorage::new();
    ps.create_particle(1, &emission(100, 0, 0), 0);
    ps.create_particle(1, &emission(300, 0, 0), 0);
    ps.create_particle(1, &emission(200, 0, 0), 0);
    ps.update(0, 150);
    let deaths: Vec<i64> = ps.particles_container.iter().map(|p| p.deathtime).collect();
    assert_eq!(deaths, vec![300, 200]);
}
