use vstd::prelude::*;
use crate::geometry::{Vector2, norm_sq};

verus! {

/// Fixed-point scale of the cosines and sines in the fan tables.
pub const ROTATION_SCALE: i64 = 1_000_000;

/// cos(pi/4) and sin(pi/4), rounded down to the rotation scale.
pub const COS_45: i64 = 707_106;

/// cos(pi/6), and sin(pi/3), rounded down to the rotation scale.
pub const COS_30: i64 = 866_025;

/// sin(pi/6), and cos(pi/3), exact at the rotation scale.
pub const SIN_30: i64 = 500_000;

/// Why a split cannot produce a fan of neutrons.
#[derive(Clone, Copy, Debug, PartialEq, Eq, Structural)]
pub enum SplitError {
    /// The requested number of secondary neutrons lies outside 1 to 5.
    InvalidSplitCount,
}

/// Division that rounds toward zero, as Rust's `/` does.
pub open spec fn trunc_div(n: int, d: int) -> int {
    if n >= 0 {
        n / d
    } else {
        -((-n) / d)
    }
}

/// `v` turned by the angle whose cosine and sine are `cos` and `sin` at the
/// rotation scale, each component rounded toward zero.
pub open spec fn rotated(v: Vector2, cos: int, sin: int) -> Vector2 {
    Vector2 {
        x: trunc_div(cos * v.x - sin * v.y, ROTATION_SCALE as int) as i64,
        y: trunc_div(sin * v.x + cos * v.y, ROTATION_SCALE as int) as i64,
    }
}

/// The fan of each split count, as (cosine, sine) pairs at the rotation scale:
/// two neutrons at pi/4 and 7pi/4; three at pi/3, 0 and 5pi/3; four at pi/3,
/// pi/6, 11pi/6 and 5pi/3; five at pi/3, pi/6, 0, 11pi/6 and 5pi/3.
pub open spec fn fan_angles(count: int) -> Seq<(int, int)> {
    let s = ROTATION_SCALE as int;
    let h = COS_45 as int;
    let c = COS_30 as int;
    let m = SIN_30 as int;
    if count == 2 {
        seq![(h, h), (h, -h)]
    } else if count == 3 {
        seq![(m, c), (s, 0), (m, -c)]
    } else if count == 4 {
        seq![(m, c), (c, m), (c, -m), (m, -c)]
    } else if count == 5 {
        seq![(m, c), (c, m), (s, 0), (c, -m), (m, -c)]
    } else {
        seq![]
    }
}

pub open spec fn valid_split_count(count: int) -> bool {
    1 <= count <= 5
}

/// The velocities of the neutrons that a split of `count` sends out of a
/// neutron of velocity `v`.
pub open spec fn split_velocities(v: Vector2, count: int) -> Seq<Vector2> {
    if count == 1 {
        seq![v]
    } else {
        fan_angles(count).map_values(|a: (int, int)| rotated(v, a.0, a.1))
    }
}

fn trunc_div_exec(n: i128) -> (r: i128)
    requires
        -2_000_000_000_000_000_000 <= n <= 2_000_000_000_000_000_000,
    ensures
        r == trunc_div(n as int, ROTATION_SCALE as int),
{
    if n >= 0 {
        n / 1_000_000
    } else {
        -((-n) / 1_000_000)
    }
}

fn rotate(v: &Vector2, cos: i64, sin: i64) -> (r: Vector2)
    requires
        v.is_velocity(),
        -ROTATION_SCALE <= cos <= ROTATION_SCALE,
        -ROTATION_SCALE <= sin <= ROTATION_SCALE,
    ensures
        r == rotated(*v, cos as int, sin as int),
{
    proof {
        lemma_velocity_components(*v);
    }
    let x: i128 = v.x as i128;
    let y: i128 = v.y as i128;
    let c: i128 = cos as i128;
    let s: i128 = sin as i128;
    assert(-1_000_000_000_000_000_000 <= c * x <= 1_000_000_000_000_000_000) by (nonlinear_arith)
        requires -1_000_000 <= c <= 1_000_000, -1_000_000_000_000 <= x <= 1_000_000_000_000;
    assert(-1_000_000_000_000_000_000 <= s * y <= 1_000_000_000_000_000_000) by (nonlinear_arith)
        requires -1_000_000 <= s <= 1_000_000, -1_000_000_000_000 <= y <= 1_000_000_000_000;
    assert(-1_000_000_000_000_000_000 <= s * x <= 1_000_000_000_000_000_000) by (nonlinear_arith)
        requires -1_000_000 <= s <= 1_000_000, -1_000_000_000_000 <= x <= 1_000_000_000_000;
    assert(-1_000_000_000_000_000_000 <= c * y <= 1_000_000_000_000_000_000) by (nonlinear_arith)
        requires -1_000_000 <= c <= 1_000_000, -1_000_000_000_000 <= y <= 1_000_000_000_000;
    let rx = trunc_div_exec(c * x - s * y);
    let ry = trunc_div_exec(s * x + c * y);
    proof {
        lemma_trunc_div_small(c * x - s * y);
        lemma_trunc_div_small(s * x + c * y);
    }
    Vector2 { x: rx as i64, y: ry as i64 }
}

proof fn lemma_trunc_div_small(n: int)
    requires
        -2_000_000_000_000_000_000 <= n <= 2_000_000_000_000_000_000,
    ensures
        -2_000_000_000_000 <= trunc_div(n, ROTATION_SCALE as int) <= 2_000_000_000_000,
{
    if n >= 0 {
        assert(n / 1_000_000 <= 2_000_000_000_000) by (nonlinear_arith)
            requires 0 <= n <= 2_000_000_000_000_000_000;
        assert(n / 1_000_000 >= 0) by (nonlinear_arith)
            requires 0 <= n;
    } else {
        assert((-n) / 1_000_000 <= 2_000_000_000_000) by (nonlinear_arith)
            requires 0 <= -n <= 2_000_000_000_000_000_000;
        assert((-n) / 1_000_000 >= 0) by (nonlinear_arith)
            requires 0 <= -n;
    }
}

pub proof fn lemma_velocity_components(v: Vector2)
    requires
        v.is_velocity(),
    ensures
        -1_000_000_000_000 <= v.x <= 1_000_000_000_000,
        -1_000_000_000_000 <= v.y <= 1_000_000_000_000,
{
    let x = v.x as int;
    let y = v.y as int;
    assert(x * x <= 1_000_000_000_000_000_000_000_000) by (nonlinear_arith)
        requires x * x + y * y <= 1_000_000_000_000_000_000_000_000;
    assert(y * y <= 1_000_000_000_000_000_000_000_000) by (nonlinear_arith)
        requires x * x + y * y <= 1_000_000_000_000_000_000_000_000;
    assert(-1_000_000_000_000 <= x <= 1_000_000_000_000) by (nonlinear_arith)
        requires x * x <= 1_000_000_000_000_000_000_000_000;
    assert(-1_000_000_000_000 <= y <= 1_000_000_000_000) by (nonlinear_arith)
        requires y * y <= 1_000_000_000_000_000_000_000_000;
}

pub open spec fn abs(n: int) -> int {
    if n >= 0 {
        n
    } else {
        -n
    }
}

/// Rounding toward zero by the rotation scale loses less than one unit of the
/// quotient, and never gains.
proof fn lemma_trunc_div_square(n: int)
    ensures
        1_000_000_000_000 * (trunc_div(n, ROTATION_SCALE as int) * trunc_div(
            n,
            ROTATION_SCALE as int,
        )) <= n * n,
        1_000_000_000_000 * (trunc_div(n, ROTATION_SCALE as int) * trunc_div(
            n,
            ROTATION_SCALE as int,
        )) >= n * n - 2_000_000 * abs(n),
{
    let s: int = 1_000_000;
    let a = abs(n);
    let b = a / s;
    assert(b * s <= a < b * s + s && b >= 0) by (nonlinear_arith)
        requires a >= 0, b == a / s, s == 1_000_000;
    assert(trunc_div(n, s) * trunc_div(n, s) == b * b) by (nonlinear_arith)
        requires trunc_div(n, s) == b || trunc_div(n, s) == -b;
    assert(n * n == a * a) by (nonlinear_arith)
        requires a == n || a == -n;
    assert(s * s * (b * b) <= a * a) by (nonlinear_arith)
        requires 0 <= b * s <= a;
    assert(s * s * (b * b) >= a * a - 2 * s * a) by (nonlinear_arith)
        requires 0 <= b, 0 <= a < b * s + s, s > 0;
}

proof fn lemma_square_of_sum(a: int, b: int)
    ensures
        (a + b) * (a + b) == a * a + 2 * (a * b) + b * b,
{
    assert((a + b) * (a + b) == a * a + 2 * (a * b) + b * b) by (nonlinear_arith);
}

proof fn lemma_square_of_difference(a: int, b: int)
    ensures
        (a - b) * (a - b) == a * a - 2 * (a * b) + b * b,
{
    assert((a - b) * (a - b) == a * a - 2 * (a * b) + b * b) by (nonlinear_arith);
}

proof fn lemma_square_of_product(a: int, b: int)
    ensures
        (a * b) * (a * b) == (a * a) * (b * b),
{
    assert((a * b) * (a * b) == (a * a) * (b * b)) by (nonlinear_arith);
}

/// An entry of the fan tables is a rotation at the rotation scale, up to the
/// rounding of its cosine and sine.
pub open spec fn is_table_rotation(a: (int, int)) -> bool {
    &&& -ROTATION_SCALE <= a.0 <= ROTATION_SCALE
    &&& -ROTATION_SCALE <= a.1 <= ROTATION_SCALE
    &&& 1_000_000_000_000 - 2_300_000 <= a.0 * a.0 + a.1 * a.1 <= 1_000_000_000_000
}

proof fn lemma_fan_entries(count: int)
    requires
        2 <= count <= 5,
    ensures
        forall|i: int| 0 <= i < fan_angles(count).len() ==> is_table_rotation(#[trigger] fan_angles(count)[i]),
{
    let h = COS_45 as int;
    let c = COS_30 as int;
    let m = SIN_30 as int;
    let s = ROTATION_SCALE as int;
    assert(h == 707_106 && c == 866_025 && m == 500_000 && s == 1_000_000);
    assert((-h) * (-h) == 499_998_895_236) by (nonlinear_arith)
        requires h == 707_106;
    assert((-c) * (-c) == 749_999_300_625) by (nonlinear_arith)
        requires c == 866_025;
    assert((-m) * (-m) == 250_000_000_000) by (nonlinear_arith)
        requires m == 500_000;
    assert(is_table_rotation((h, h)));
    assert(is_table_rotation((h, -h)));
    assert(is_table_rotation((m, c)));
    assert(is_table_rotation((m, -c)));
    assert(is_table_rotation((c, m)));
    assert(is_table_rotation((c, -m)));
    assert(is_table_rotation((s, 0)));
}

/// Turning a velocity by an entry of the fan tables never makes it faster, and
/// slows it by no more than a few millionths of its squared speed plus the
/// rounding of each component.
pub proof fn lemma_rotation_keeps_speed(v: Vector2, cos: int, sin: int)
    requires
        v.is_velocity(),
        -ROTATION_SCALE <= cos <= ROTATION_SCALE,
        -ROTATION_SCALE <= sin <= ROTATION_SCALE,
        1_000_000_000_000 - 2_300_000 <= cos * cos + sin * sin <= 1_000_000_000_000,
    ensures
        norm_sq(rotated(v, cos, sin)) <= norm_sq(v),
        1_000_000 * (norm_sq(v) - norm_sq(rotated(v, cos, sin))) <= 3 * norm_sq(v) + 4_000_000 * (
        abs(v.x as int) + abs(v.y as int)),
{
    lemma_velocity_components(v);
    let s: int = 1_000_000;
    let x = v.x as int;
    let y = v.y as int;
    let xx = cos * x - sin * y;
    let yy = sin * x + cos * y;
    let n = norm_sq(v);
    assert(-1_000_000_000_000_000_000 <= cos * x <= 1_000_000_000_000_000_000) by (nonlinear_arith)
        requires -1_000_000 <= cos <= 1_000_000, -1_000_000_000_000 <= x <= 1_000_000_000_000;
    assert(-1_000_000_000_000_000_000 <= sin * y <= 1_000_000_000_000_000_000) by (nonlinear_arith)
        requires -1_000_000 <= sin <= 1_000_000, -1_000_000_000_000 <= y <= 1_000_000_000_000;
    assert(-1_000_000_000_000_000_000 <= sin * x <= 1_000_000_000_000_000_000) by (nonlinear_arith)
        requires -1_000_000 <= sin <= 1_000_000, -1_000_000_000_000 <= x <= 1_000_000_000_000;
    assert(-1_000_000_000_000_000_000 <= cos * y <= 1_000_000_000_000_000_000) by (nonlinear_arith)
        requires -1_000_000 <= cos <= 1_000_000, -1_000_000_000_000 <= y <= 1_000_000_000_000;
    lemma_trunc_div_small(xx);
    lemma_trunc_div_small(yy);
    let q = trunc_div(xx, s);
    let p = trunc_div(yy, s);
    let r = rotated(v, cos, sin);
    assert(r.x == q && r.y == p);
    lemma_trunc_div_square(xx);
    lemma_trunc_div_square(yy);
    let a = cos * x;
    let b = sin * y;
    let e = sin * x;
    let f = cos * y;
    lemma_square_of_difference(a, b);
    lemma_square_of_sum(e, f);
    lemma_square_of_product(cos, x);
    lemma_square_of_product(sin, y);
    lemma_square_of_product(sin, x);
    lemma_square_of_product(cos, y);
    assert(a * b == (cos * sin) * (x * y)) by (nonlinear_arith)
        requires a == cos * x, b == sin * y;
    assert(e * f == (cos * sin) * (x * y)) by (nonlinear_arith)
        requires e == sin * x, f == cos * y;
    assert(xx == a - b && yy == e + f);
    assert(xx * xx == (a - b) * (a - b));
    assert(yy * yy == (e + f) * (e + f));
    assert(xx * xx == cos * cos * (x * x) - 2 * ((cos * sin) * (x * y)) + sin * sin * (y * y));
    assert(yy * yy == sin * sin * (x * x) + 2 * ((cos * sin) * (x * y)) + cos * cos * (y * y));
    assert((cos * cos + sin * sin) * n == cos * cos * (x * x) + sin * sin * (y * y) + sin * sin * (
    x * x) + cos * cos * (y * y)) by (nonlinear_arith)
        requires n == x * x + y * y;
    assert(abs(xx) + abs(yy) <= 2 * s * (abs(x) + abs(y))) by (nonlinear_arith)
        requires
            xx == cos * x - sin * y,
            yy == sin * x + cos * y,
            -s <= cos <= s,
            -s <= sin <= s,
            s > 0;
    assert(0 <= n) by (nonlinear_arith)
        requires n == x * x + y * y;
    assert((cos * cos + sin * sin) * n <= s * s * n) by (nonlinear_arith)
        requires cos * cos + sin * sin <= 1_000_000_000_000, s == 1_000_000, 0 <= n;
    assert((cos * cos + sin * sin) * n >= s * s * n - 2_300_000 * n) by (nonlinear_arith)
        requires cos * cos + sin * sin >= 1_000_000_000_000 - 2_300_000, s == 1_000_000, 0 <= n;
    assert(q * q + p * p <= n) by (nonlinear_arith)
        requires
            s * s * (q * q) + s * s * (p * p) <= s * s * n,
            s == 1_000_000;
    assert(s * (n - (q * q + p * p)) <= 3 * n + 4 * s * (abs(x) + abs(y))) by (nonlinear_arith)
        requires
            s * s * (q * q) + s * s * (p * p) >= s * s * n - 2_300_000 * n - 2 * s * (abs(xx) + abs(yy)),
            abs(xx) + abs(yy) <= 2 * s * (abs(x) + abs(y)),
            s == 1_000_000,
            0 <= n;
}

/// A split sends out exactly as many neutrons as it was asked for, the single
/// one unchanged, and each of them no faster than the incoming neutron and at
/// most slightly slower.
pub proof fn lemma_split_keeps_speed(v: Vector2, count: int)
    requires
        v.is_velocity(),
        valid_split_count(count),
    ensures
        split_velocities(v, count).len() == count,
        count == 1 ==> split_velocities(v, count)[0] == v,
        forall|i: int|
            0 <= i < count ==> {
                &&& #[trigger] norm_sq(split_velocities(v, count)[i]) <= norm_sq(v)
                &&& 1_000_000 * (norm_sq(v) - norm_sq(split_velocities(v, count)[i])) <= 3
                    * norm_sq(v) + 4_000_000 * (abs(v.x as int) + abs(v.y as int))
            },
{
    if count > 1 {
        let fan = fan_angles(count);
        lemma_fan_entries(count);
        assert forall|i: int| 0 <= i < count implies {
            &&& #[trigger] norm_sq(split_velocities(v, count)[i]) <= norm_sq(v)
            &&& 1_000_000 * (norm_sq(v) - norm_sq(split_velocities(v, count)[i])) <= 3 * norm_sq(
                v,
            ) + 4_000_000 * (abs(v.x as int) + abs(v.y as int))
        } by {
            assert(split_velocities(v, count)[i] == rotated(v, fan[i].0, fan[i].1));
            lemma_rotation_keeps_speed(v, fan[i].0, fan[i].1);
        }
    } else {
        let x = v.x as int;
        let y = v.y as int;
        assert(0 <= norm_sq(v)) by (nonlinear_arith)
            requires norm_sq(v) == x * x + y * y;
    }
}

/// The velocities of the secondary neutrons that an atom of `num_split`
/// neutrons sends out when it is hit by a neutron of velocity
/// `neutron_velocity`: the velocity itself for one, a fan of turned copies
/// for two to five, and an error for any other count.
pub fn calculate_split_trajectories(neutron_velocity: Vector2, num_split: i32) -> (r: Result<
    Vec<Vector2>,
    SplitError,
>)
    requires
        neutron_velocity.is_velocity(),
    ensures
        valid_split_count(num_split as int) ==> r is Ok && r->Ok_0@ == split_velocities(
            neutron_velocity,
            num_split as int,
        ),
        !valid_split_count(num_split as int) ==> r == Err::<Vec<Vector2>, SplitError>(
            SplitError::InvalidSplitCount,
        ),
{
    let v = &neutron_velocity;
    let out = match num_split {
        1 => vec![neutron_velocity],
        2 => {
            let left = rotate(v, COS_45, COS_45);
            let right = rotate(v, COS_45, 0 - COS_45);
            vec![left, right]
        },
        3 => {
            let left = rotate(v, SIN_30, COS_30);
            let ahead = rotate(v, ROTATION_SCALE, 0);
            let right = rotate(v, SIN_30, 0 - COS_30);
            vec![left, ahead, right]
        },
        4 => {
            let wide_left = rotate(v, SIN_30, COS_30);
            let left = rotate(v, COS_30, SIN_30);
            let right = rotate(v, COS_30, 0 - SIN_30);
            let wide_right = rotate(v, SIN_30, 0 - COS_30);
            vec![wide_left, left, right, wide_right]
        },
        5 => {
            let wide_left = rotate(v, SIN_30, COS_30);
            let left = rotate(v, COS_30, SIN_30);
            let ahead = rotate(v, ROTATION_SCALE, 0);
            let right = rotate(v, COS_30, 0 - SIN_30);
            let wide_right = rotate(v, SIN_30, 0 - COS_30);
            vec![wide_left, left, ahead, right, wide_right]
        },
        _ => {
            return Err(SplitError::InvalidSplitCount);
        },
    };
    assert(out@ =~= split_velocities(neutron_velocity, num_split as int));
    Ok(out)
}

} // verus!
