use vstd::prelude::*;
use crate::physics::within;

verus! {

/// Largest coordinate magnitude that the distance computation accepts.
pub const COORD_LIMIT: i64 = 1_000_000_000_000_000;

/// Floor division by a positive divisor (the mathematical `/` on `int`).
pub fn div_floor(a: i64, d: i64) -> (r: i64)
    requires
        d > 0,
        a > i64::MIN,
    ensures
        r == a / d,
{
    if a >= 0 {
        let q: u64 = (a as u64) / (d as u64);
        assert(q == a / d);
        q as i64
    } else {
        let n: u64 = ((-(a + 1)) as u64) / (d as u64);
        proof {
            let m: int = -(a + 1);
            let rem: int = m % (d as int);
            vstd::arithmetic::div_mod::lemma_fundamental_div_mod(m, d as int);
            assert(0 <= rem < d);
            assert(a as int == (-(n as int) - 1) * d + (d - 1 - rem)) by (nonlinear_arith)
                requires
                    m == d * (n as int) + rem,
                    m == -(a + 1),
            ;
            vstd::arithmetic::div_mod::lemma_fundamental_div_mod_converse_div(
                a as int,
                d as int,
                -(n as int) - 1,
                d - 1 - rem,
            );
        }
        -(n as i64) - 1
    }
}

/// Squared Euclidean distance between two points.
pub open spec fn sq_dist(x1: int, y1: int, x2: int, y2: int) -> int {
    (x1 - x2) * (x1 - x2) + (y1 - y2) * (y1 - y2)
}

/// Squared distance between (x1, y1) and (x2, y2).
pub fn square_distance(x1: i64, y1: i64, x2: i64, y2: i64) -> (r: i128)
    requires
        -COORD_LIMIT <= x1 <= COORD_LIMIT,
        -COORD_LIMIT <= y1 <= COORD_LIMIT,
        -COORD_LIMIT <= x2 <= COORD_LIMIT,
        -COORD_LIMIT <= y2 <= COORD_LIMIT,
    ensures
        r == sq_dist(x1 as int, y1 as int, x2 as int, y2 as int),
{
    let dx: i128 = x1 as i128 - x2 as i128;
    let dy: i128 = y1 as i128 - y2 as i128;
    assert(dx * dx <= 4_000_000_000_000_000_000_000_000_000_000) by (nonlinear_arith)
        requires -2_000_000_000_000_000 <= dx <= 2_000_000_000_000_000;
    assert(dy * dy <= 4_000_000_000_000_000_000_000_000_000_000) by (nonlinear_arith)
        requires -2_000_000_000_000_000 <= dy <= 2_000_000_000_000_000;
    assert(dx * dx >= 0 && dy * dy >= 0) by (nonlinear_arith);
    dx * dx + dy * dy
}

/// Scale of the sine table: sines are given in ten-thousandths.
pub const SINE_SCALE: i64 = 10_000;

/// Sine of `d` whole degrees, for d from 0 to 90, in ten-thousandths (rounded).
pub open spec fn quarter_sine(d: u8) -> int {
    match d {
        0 => 0,
        1 => 175,
        2 => 349,
        3 => 523,
        4 => 698,
        5 => 872,
        6 => 1045,
        7 => 1219,
        8 => 1392,
        9 => 1564,
        10 => 1736,
        11 => 1908,
        12 => 2079,
        13 => 2250,
        14 => 2419,
        15 => 2588,
        16 => 2756,
        17 => 2924,
        18 => 3090,
        19 => 3256,
        20 => 3420,
        21 => 3584,
        22 => 3746,
        23 => 3907,
        24 => 4067,
        25 => 4226,
        26 => 4384,
        27 => 4540,
        28 => 4695,
        29 => 4848,
        30 => 5000,
        31 => 5150,
        32 => 5299,
        33 => 5446,
        34 => 5592,
        35 => 5736,
        36 => 5878,
        37 => 6018,
        38 => 6157,
        39 => 6293,
        40 => 6428,
        41 => 6561,
        42 => 6691,
        43 => 6820,
        44 => 6947,
        45 => 7071,
        46 => 7193,
        47 => 7314,
        48 => 7431,
        49 => 7547,
        50 => 7660,
        51 => 7771,
        52 => 7880,
        53 => 7986,
        54 => 8090,
        55 => 8192,
        56 => 8290,
        57 => 8387,
        58 => 8480,
        59 => 8572,
        60 => 8660,
        61 => 8746,
        62 => 8829,
        63 => 8910,
        64 => 8988,
        65 => 9063,
        66 => 9135,
        67 => 9205,
        68 => 9272,
        69 => 9336,
        70 => 9397,
        71 => 9455,
        72 => 9511,
        73 => 9563,
        74 => 9613,
        75 => 9659,
        76 => 9703,
        77 => 9744,
        78 => 9781,
        79 => 9816,
        80 => 9848,
        81 => 9877,
        82 => 9903,
        83 => 9925,
        84 => 9945,
        85 => 9962,
        86 => 9976,
        87 => 9986,
        88 => 9994,
        89 => 9998,
        _ => 10000,
    }
}

fn quarter_sine_exec(d: i64) -> (r: i64)
    requires
        0 <= d <= 90,
    ensures
        r == quarter_sine(d as u8),
        0 <= r <= SINE_SCALE,
{
    match d {
        0 => 0,
        1 => 175,
        2 => 349,
        3 => 523,
        4 => 698,
        5 => 872,
        6 => 1045,
        7 => 1219,
        8 => 1392,
        9 => 1564,
        10 => 1736,
        11 => 1908,
        12 => 2079,
        13 => 2250,
        14 => 2419,
        15 => 2588,
        16 => 2756,
        17 => 2924,
        18 => 3090,
        19 => 3256,
        20 => 3420,
        21 => 3584,
        22 => 3746,
        23 => 3907,
        24 => 4067,
        25 => 4226,
        26 => 4384,
        27 => 4540,
        28 => 4695,
        29 => 4848,
        30 => 5000,
        31 => 5150,
        32 => 5299,
        33 => 5446,
        34 => 5592,
        35 => 5736,
        36 => 5878,
        37 => 6018,
        38 => 6157,
        39 => 6293,
        40 => 6428,
        41 => 6561,
        42 => 6691,
        43 => 6820,
        44 => 6947,
        45 => 7071,
        46 => 7193,
        47 => 7314,
        48 => 7431,
        49 => 7547,
        50 => 7660,
        51 => 7771,
        52 => 7880,
        53 => 7986,
        54 => 8090,
        55 => 8192,
        56 => 8290,
        57 => 8387,
        58 => 8480,
        59 => 8572,
        60 => 8660,
        61 => 8746,
        62 => 8829,
        63 => 8910,
        64 => 8988,
        65 => 9063,
        66 => 9135,
        67 => 9205,
        68 => 9272,
        69 => 9336,
        70 => 9397,
        71 => 9455,
        72 => 9511,
        73 => 9563,
        74 => 9613,
        75 => 9659,
        76 => 9703,
        77 => 9744,
        78 => 9781,
        79 => 9816,
        80 => 9848,
        81 => 9877,
        82 => 9903,
        83 => 9925,
        84 => 9945,
        85 => 9962,
        86 => 9976,
        87 => 9986,
        88 => 9994,
        89 => 9998,
        _ => 10000,
    }
}

/// Sine of `d` whole degrees, 0 <= d < 360, in ten-thousandths.
pub open spec fn sine_deg(d: int) -> int {
    if d <= 90 {
        quarter_sine(d as u8)
    } else if d <= 180 {
        quarter_sine((180 - d) as u8)
    } else if d <= 270 {
        -quarter_sine((d - 180) as u8)
    } else {
        -quarter_sine((360 - d) as u8)
    }
}

/// Cosine of `d` whole degrees, 0 <= d < 360, in ten-thousandths.
pub open spec fn cosine_deg(d: int) -> int {
    sine_deg((d + 90) % 360)
}

fn sine_exec(d: i64) -> (r: i64)
    requires
        0 <= d < 360,
    ensures
        r == sine_deg(d as int),
        -SINE_SCALE <= r <= SINE_SCALE,
{
    if d <= 90 {
        quarter_sine_exec(d)
    } else if d <= 180 {
        quarter_sine_exec(180 - d)
    } else if d <= 270 {
        -quarter_sine_exec(d - 180)
    } else {
        -quarter_sine_exec(360 - d)
    }
}

/// Absolute value.
pub open spec fn magnitude(x: int) -> int {
    if x < 0 {
        -x
    } else {
        x
    }
}

/// Scale of interpolated sines: ten-millionths.
pub const FINE_SCALE: i64 = 10_000_000;

/// Sine of `heading` thousandths of a degree, 0 <= heading < 360000, interpolated linearly
/// between the whole degrees around it, in ten-millionths.
pub open spec fn fine_sine(heading: int) -> int {
    let d = heading / 1000;
    let f = heading % 1000;
    sine_deg(d) * (1000 - f) + sine_deg((d + 1) % 360) * f
}

/// Cosine of `heading` thousandths of a degree, interpolated as `fine_sine`.
pub open spec fn fine_cosine(heading: int) -> int {
    fine_sine((heading + 90_000) % 360_000)
}

fn fine_sine_exec(heading: i64) -> (r: i64)
    requires
        0 <= heading < crate::components::FULL_TURN,
    ensures
        r == fine_sine(heading as int),
        -FINE_SCALE <= r <= FINE_SCALE,
{
    let d: i64 = heading / 1000;
    let f: i64 = heading % 1000;
    let a = sine_exec(d);
    let b = sine_exec((d + 1) % 360);
    assert(-FINE_SCALE <= a * (1000 - f) + b * f <= FINE_SCALE) by (nonlinear_arith)
        requires -SINE_SCALE <= a <= SINE_SCALE, -SINE_SCALE <= b <= SINE_SCALE, 0 <= f < 1000;
    assert(-FINE_SCALE <= a * (1000 - f) <= FINE_SCALE) by (nonlinear_arith)
        requires -SINE_SCALE <= a <= SINE_SCALE, 0 <= f < 1000;
    assert(-FINE_SCALE <= b * f <= FINE_SCALE) by (nonlinear_arith)
        requires -SINE_SCALE <= b <= SINE_SCALE, 0 <= f < 1000;
    a * (1000 - f) + b * f
}

proof fn lemma_fine_range(heading: int)
    requires
        0 <= heading < crate::components::FULL_TURN,
    ensures
        -FINE_SCALE <= fine_sine(heading) <= FINE_SCALE,
{
    let d = heading / 1000;
    let f = heading % 1000;
    lemma_sine_range(d);
    lemma_sine_range((d + 1) % 360);
    let a = sine_deg(d);
    let b = sine_deg((d + 1) % 360);
    assert(-FINE_SCALE <= a * (1000 - f) + b * f <= FINE_SCALE) by (nonlinear_arith)
        requires -SINE_SCALE <= a <= SINE_SCALE, -SINE_SCALE <= b <= SINE_SCALE, 0 <= f < 1000;
}

/// Largest coordinate magnitude that a rotation accepts.
pub const ROTATE_LIMIT: i64 = 10_000_000_000;

/// Rotation of (x, y) by `heading` thousandths of a degree, on the interpolated sine
/// table, rounded down.
pub open spec fn rotated(x: int, y: int, heading: int) -> (int, int) {
    let s = fine_sine(heading);
    let c = fine_cosine(heading);
    ((x * c - y * s) / FINE_SCALE as int, (x * s + y * c) / FINE_SCALE as int)
}

/// Rotates a point about the origin by a heading in thousandths of a degree.
pub fn rotate_point(point: (i64, i64), heading: i64) -> (r: (i64, i64))
    requires
        -ROTATE_LIMIT <= point.0 <= ROTATE_LIMIT,
        -ROTATE_LIMIT <= point.1 <= ROTATE_LIMIT,
        0 <= heading < crate::components::FULL_TURN,
    ensures
        (r.0 as int, r.1 as int) == rotated(point.0 as int, point.1 as int, heading as int),
        -(magnitude(point.0 as int) + magnitude(point.1 as int)) <= r.0 <= magnitude(point.0 as int) + magnitude(point.1 as int),
        -(magnitude(point.0 as int) + magnitude(point.1 as int)) <= r.1 <= magnitude(point.0 as int) + magnitude(point.1 as int),
{
    let s: i64 = fine_sine_exec(heading);
    let c: i64 = fine_sine_exec((heading + 90_000) % 360_000);
    let (x, y) = point;
    proof {
        lemma_scaled_bound(x as int, c as int);
        lemma_scaled_bound(y as int, s as int);
        lemma_scaled_bound(x as int, s as int);
        lemma_scaled_bound(y as int, c as int);
    }
    let a: i64 = x * c - y * s;
    let b: i64 = x * s + y * c;
    let rx: i64 = div_floor(a, FINE_SCALE);
    let ry: i64 = div_floor(b, FINE_SCALE);
    proof {
        lemma_div_bound(a as int, magnitude(x as int) + magnitude(y as int));
        lemma_div_bound(b as int, magnitude(x as int) + magnitude(y as int));
    }
    (rx, ry)
}

/// A rotated point stays within the sum of the magnitudes of its coordinates.
pub proof fn lemma_rotated_bound(x: int, y: int, heading: int)
    requires
        0 <= heading < crate::components::FULL_TURN,
    ensures
        within(rotated(x, y, heading).0, magnitude(x) + magnitude(y)),
        within(rotated(x, y, heading).1, magnitude(x) + magnitude(y)),
{
    lemma_fine_range(heading);
    lemma_fine_range((heading + 90_000) % 360_000);
    let s = fine_sine(heading);
    let c = fine_cosine(heading);
    lemma_scaled_bound(x, c);
    lemma_scaled_bound(y, s);
    lemma_scaled_bound(x, s);
    lemma_scaled_bound(y, c);
    lemma_div_bound(x * c - y * s, magnitude(x) + magnitude(y));
    lemma_div_bound(x * s + y * c, magnitude(x) + magnitude(y));
}

proof fn lemma_sine_range(d: int)
    requires
        0 <= d < 360,
    ensures
        -SINE_SCALE <= sine_deg(d) <= SINE_SCALE,
{
    let q: u8 = if d <= 90 { d as u8 } else if d <= 180 { (180 - d) as u8 } else if d <= 270 { (d - 180) as u8 } else { (360 - d) as u8 };
    assert(0 <= quarter_sine(q) <= SINE_SCALE);
}

proof fn lemma_scaled_bound(x: int, s: int)
    requires
        -FINE_SCALE <= s <= FINE_SCALE,
    ensures
        -magnitude(x) * FINE_SCALE <= x * s <= magnitude(x) * FINE_SCALE,
{
    if x < 0 {
        assert(-(-x) * FINE_SCALE <= x * s <= (-x) * FINE_SCALE) by (nonlinear_arith)
            requires x < 0, -FINE_SCALE <= s <= FINE_SCALE;
    } else {
        assert(-x * FINE_SCALE <= x * s <= x * FINE_SCALE) by (nonlinear_arith)
            requires x >= 0, -FINE_SCALE <= s <= FINE_SCALE;
    }
}

proof fn lemma_div_bound(a: int, m: int)
    requires
        m >= 0,
        -m * FINE_SCALE <= a <= m * FINE_SCALE,
    ensures
        -m <= a / (FINE_SCALE as int) <= m,
{
    vstd::arithmetic::div_mod::lemma_fundamental_div_mod(a, FINE_SCALE as int);
    assert(-m <= a / (FINE_SCALE as int) <= m) by (nonlinear_arith)
        requires
            a == FINE_SCALE * (a / FINE_SCALE as int) + a % FINE_SCALE as int,
            0 <= a % (FINE_SCALE as int) < FINE_SCALE,
            -m * FINE_SCALE <= a <= m * FINE_SCALE;
}

} // verus!
