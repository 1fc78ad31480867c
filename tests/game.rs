use asteroids::collision::{Hit, SnapEntry};
use asteroids::components::{Collidable, CollidableType, Position};
use asteroids::effects::{apply_hit, fragment, sweep, AudioCue, Requests, RockRequest, Sound};
use asteroids::game::GameState;
use asteroids::particles::ParticleStorage;

fn playing(lives: u32) -> GameState {
    let mut g = GameState::new();
    g.lives = lives;
    g
}

#[test]
fn damage_sequence_from_three_lives() {
    let mut g = playing(3);
    let out = g.damage();
    assert!(!out);
    assert_eq!(g.lives, 2);
    assert_eq!(g.hitstun, 21);
    assert!(g.clear_screen);
}

#[test]
fn lives_do_not_underflow() {
    let mut g = playing(0);
    assert!(g.damage());
    assert_eq!(g.lives, 0);
    assert_eq!(g.hitstun, 64);
    assert!(g.damage());
    assert_eq!(g.lives, 0);
    assert_eq!(g.hitstun, 128);
}

#[test]
fn hitstun_saturates() {
    let mut g = playing(1);
    g.hitstun = u64::MAX - 3;
    g.damage();
    assert_eq!(g.hitstun, u64::MAX);
}

#[test]
fn score_raises_high_score() {
    let mut g = playing(3);
    g.high_score = 2;
    g.score_point();
    assert_eq!((g.score, g.high_score), (1, 2));
    g.score_point();
    g.score_point();
    assert_eq!((g.score, g.high_score), (3, 3));
    g.reset();
    assert_eq!((g.score, g.high_score, g.lives), (0, 3, 3));
}

#[test]
fn hitstun_suspends_frames() {
    let mut g = playing(3);
    g.hitstun = 2;
    assert!(!g.frame_runs());
    assert_eq!(g.hitstun, 1);
    assert!(!g.frame_runs());
    assert_eq!(g.hitstun, 0);
    assert!(g.frame_runs());
    assert_eq!(g.hitstun, 0);
}

#[test]
fn spawn_cooldown_cycle() {
    let mut g = playing(3);
    assert!(g.spawn_due(16));
    assert_eq!(g.asteroid_cooldown, 2000 - 16);
    assert!(!g.spawn_due(1000));
    assert!(!g.spawn_due(984));
    assert_eq!(g.asteroid_cooldown, 0);
    assert!(g.spawn_due(500));
    assert_eq!(g.asteroid_cooldown, 1500);
}

#[test]
fn fragmentation_of_radius_five() {
    let mut rocks = Vec::new();
    fragment(&mut rocks, 100_000, 50_000, 5000, 0);
    assert_eq!(
        rocks,
        vec![
            RockRequest { x: 105_000, y: 50_000, radius: 4000 },
            RockRequest { x: 95_000, y: 50_000, radius: 4000 },
        ]
    );
    let mut turned = Vec::new();
    fragment(&mut turned, 100_000, 50_000, 5000, 90);
    assert_eq!(turned[0], RockRequest { x: 100_000, y: 55_000, radius: 4000 });
    assert_eq!(turned[1], RockRequest { x: 100_000, y: 45_000, radius: 4000 });
}

#[test]
fn fragmentation_floor() {
    for r in [1000i64, 2500, 3000] {
        let mut rocks = Vec::new();
        fragment(&mut rocks, 100_000, 50_000, r, 45);
        assert!(rocks.is_empty());
    }
}

#[test]
fn shattered_asteroid_is_destroyed_and_scores() {
    let mut g = playing(3);
    let mut req = Requests::new();
    let mut parts = ParticleStorage::new();
    let mut cues: Vec<AudioCue> = Vec::new();
    apply_hit(&mut g, &mut req, &mut parts, &mut cues, Hit::Shattered { id: 9, x: 100_000, y: 50_000, radius: 5000 }, 0, 1000);
    assert_eq!(req.destroy, vec![9]);
    assert_eq!(req.rocks.len(), 2);
    assert!(req.rocks.iter().all(|r| r.radius == 4000));
    assert_eq!((g.score, g.high_score), (1, 1));
    assert_eq!(parts.particles_container.len(), 16);
    assert_eq!(cues.len(), 1);
    assert_eq!(cues[0].sound, Sound::AsteroidExplode);
    assert!(cues[0].pitch >= 900 && cues[0].pitch < 1000);

    let mut small = Requests::new();
    apply_hit(&mut g, &mut small, &mut parts, &mut cues, Hit::Shattered { id: 4, x: 100_000, y: 50_000, radius: 3000 }, 0, 1000);
    assert_eq!(small.destroy, vec![4]);
    assert!(small.rocks.is_empty());
}

#[test]
fn damaged_player_at_zero_lives_is_destroyed() {
    let mut g = playing(0);
    let mut req = Requests::new();
    let mut parts = ParticleStorage::new();
    let mut cues: Vec<AudioCue> = Vec::new();
    apply_hit(&mut g, &mut req, &mut parts, &mut cues, Hit::Damaged { id: 3, x: 0, y: 0, by: CollidableType::BULLET }, 0, 0);
    assert_eq!(g.lives, 0);
    assert_eq!(req.destroy, vec![3]);
    assert_eq!(cues[0].sound, Sound::PlayerDeathByBullet);

    let mut g2 = playing(3);
    let mut req2 = Requests::new();
    apply_hit(&mut g2, &mut req2, &mut parts, &mut cues, Hit::Damaged { id: 3, x: 0, y: 0, by: CollidableType::ASTEROID }, 0, 0);
    assert_eq!(g2.lives, 2);
    assert!(req2.destroy.is_empty());
}

#[test]
fn spent_bullet_is_destroyed() {
    let mut g = playing(3);
    let mut req = Requests::new();
    let mut parts = ParticleStorage::new();
    let mut cues: Vec<AudioCue> = Vec::new();
    apply_hit(&mut g, &mut req, &mut parts, &mut cues, Hit::Spent { id: 5, x: 1, y: 2 }, 0, 0);
    assert_eq!(req.destroy, vec![5]);
    assert_eq!(parts.particles_container.len(), 8);
    assert_eq!(g, playing(3));
}

#[test]
fn clear_screen_sweeps_non_players() {
    let mut g = playing(3);
    g.damage();
    let snap = vec![
        SnapEntry { id: 1, position: Position(100_000, 50_000, 0), collidable: Collidable(1000, CollidableType::PLAYER) },
        SnapEntry { id: 2, position: Position(80_000, 50_000, 0), collidable: Collidable(4000, CollidableType::ASTEROID) },
        SnapEntry { id: 3, position: Position(90_000, 60_000, 0), collidable: Collidable(1000, CollidableType::BULLET) },
    ];
    let mut req = Requests::new();
    let mut parts = ParticleStorage::new();
    sweep(&mut g, &mut req, &mut parts, &snap, 0);
    assert_eq!(req.destroy, vec![2, 3]);
    assert!(!g.clear_screen);
    let mut again = Requests::new();
    sweep(&mut g, &mut again, &mut parts, &snap, 0);
    assert!(again.destroy.is_empty());
}
