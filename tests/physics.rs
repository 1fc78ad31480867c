use asteroids::components::{Position, Velocity};
use asteroids::geometry::{div_floor, rotate_point, square_distance};
use asteroids::physics::{integrate, modulo, overlaps, wrap_axis, wrap_position};

#[test]
fn integration_moves_and_turns() {
    let p = integrate(Position(100_000, 50_000, 0), Velocity(10_000, 0, 90_000), 1000);
    assert_eq!(p, Position(110_000, 50_000, 90_000));
}

#[test]
fn integration_heading_wraps_modulo_full_turn() {
    let p = integrate(Position(0, 0, 350_000), Velocity(0, 0, 20_000), 1000);
    assert_eq!(p.2, 10_000);
    let q = integrate(Position(0, 0, 5_000), Velocity(-1000, 0, -10_000), 1000);
    assert_eq!(q, Position(-1000, 0, 355_000));
}

#[test]
fn integration_rounds_down() {
    let p = integrate(Position(0, 0, 0), Velocity(-1, 1, 0), 16);
    assert_eq!(p, Position(-1, 0, 0));
}

#[test]
fn wrap_keeps_every_radius_in_range() {
    for r in [1i64, 1000, 3000, 6990] {
        for x in [-500_000i64, 0, 54_000, 55_000 - r - 1, 100_000, 200_000 + r + 1, 900_000] {
            for y in [-500_000i64, 29_000, 30_000 - r - 1, 70_000, 115_000 + r + 1, 900_000] {
                let w = wrap_position(Position(x, y, 7), r);
                assert!(55_000 - r <= w.0 && w.0 <= 200_000 + r);
                assert!(30_000 - r <= w.1 && w.1 <= 115_000 + r);
                assert_eq!(w.2, 7);
            }
        }
    }
}

#[test]
fn wrap_reenters_at_opposite_edge() {
    assert_eq!(wrap_axis(201_001, 1000, 55_000, 200_000), 54_000);
    assert_eq!(wrap_axis(53_999, 1000, 55_000, 200_000), 201_000);
    assert_eq!(wrap_axis(201_000, 1000, 55_000, 200_000), 201_000);
    assert_eq!(wrap_axis(100_000, 1000, 55_000, 200_000), 100_000);
}

#[test]
fn square_distance_exact() {
    assert_eq!(square_distance(0, 0, 3, 4), 25);
    assert_eq!(square_distance(-5, 7, 5, -7), 100 + 196);
}

#[test]
fn collision_uses_sum_of_squared_radii() {
    let a = Position(100_000, 50_000, 0);
    // Within r² + r² = 2_000_000 of each other.
    assert!(overlaps(a, 1000, Position(101_000, 50_000, 0), 1000));
    // At squared distance 2_250_000: not below r² + r², though below (r + r)².
    assert!(!overlaps(a, 1000, Position(101_500, 50_000, 0), 1000));
    assert!(!overlaps(a, 1000, Position(102_000, 50_000, 0), 1000));
}

#[test]
fn collision_is_symmetric() {
    let cases = [
        (Position(0, 0, 0), 1000, Position(1200, 500, 0), 2000),
        (Position(70_000, 40_000, 0), 4000, Position(75_000, 41_000, 0), 1000),
        (Position(70_000, 40_000, 0), 1000, Position(90_000, 40_000, 0), 1000),
    ];
    for (a, ra, b, rb) in cases {
        assert_eq!(overlaps(a, ra, b, rb), overlaps(b, rb, a, ra));
    }
}

#[test]
fn rotation_on_the_table() {
    assert_eq!(rotate_point((5000, 0), 0), (5000, 0));
    assert_eq!(rotate_point((5000, 0), 90_000), (0, 5000));
    assert_eq!(rotate_point((0, -6000), 180_000), (0, 6000));
    assert_eq!(rotate_point((1000, 0), 30_500), (861, 507));
    assert_eq!(rotate_point((1000, 0), 30_000), (866, 500));
    assert_eq!(rotate_point((1000, 0), 270_000), (0, -1000));
}

#[test]
fn floor_division_and_remainder() {
    assert_eq!(div_floor(-1, 1000), -1);
    assert_eq!(div_floor(-1000, 1000), -1);
    assert_eq!(div_floor(-1001, 1000), -2);
    assert_eq!(div_floor(1999, 1000), 1);
    assert_eq!(modulo(-10_000, 360_000), 350_000);
    assert_eq!(modulo(720_001, 360_000), 1);
}
