use vstd::prelude::*;
use crate::split::trunc_div;

verus! {

/// Largest absolute value of a coordinate: the edge of the world.
pub const WORLD_LIMIT: i64 = 1_000_000_000_000_000;

/// Largest magnitude of a velocity, per second.
pub const SPEED_LIMIT: i64 = 1_000_000_000_000;

/// Largest radius that a collider may have.
pub const RADIUS_LIMIT: i64 = 1_000_000_000_000_000;

/// A point or a displacement in the plane, in thousandths of a world unit.
#[derive(Clone, Copy, Debug, PartialEq, Eq, Structural)]
pub struct Vector2 {
    pub x: i64,
    pub y: i64,
}

impl Vector2 {
    /// A velocity is at most the speed limit in magnitude.
    pub open spec fn is_velocity(self) -> bool {
        norm_sq(self) <= SPEED_LIMIT * SPEED_LIMIT
    }

    pub open spec fn in_world(self) -> bool {
        -WORLD_LIMIT <= self.x <= WORLD_LIMIT && -WORLD_LIMIT <= self.y <= WORLD_LIMIT
    }

    pub fn new(x: i64, y: i64) -> (r: Vector2)
        ensures
            r.x == x,
            r.y == y,
    {
        Vector2 { x, y }
    }
}

/// Squared length of a vector.
pub open spec fn norm_sq(v: Vector2) -> int {
    v.x * v.x + v.y * v.y
}

/// Squared Euclidean distance between two points.
pub open spec fn dist_sq(a: Vector2, b: Vector2) -> int {
    (a.x - b.x) * (a.x - b.x) + (a.y - b.y) * (a.y - b.y)
}

/// Two circles overlap when the distance of their centres is strictly less
/// than the sum of their radii.
pub open spec fn overlaps(pa: Vector2, ra: int, pb: Vector2, rb: int) -> bool {
    ra + rb > 0 && dist_sq(pa, pb) < (ra + rb) * (ra + rb)
}

/// A point lies inside a circle when its distance to the centre is strictly
/// less than the radius.
pub open spec fn contains_point(point: Vector2, center: Vector2, radius: int) -> bool {
    radius > 0 && dist_sq(point, center) < radius * radius
}

/// Whether two circles overlap does not depend on which one comes first.
pub proof fn lemma_overlaps_symmetric(pa: Vector2, ra: int, pb: Vector2, rb: int)
    ensures
        overlaps(pa, ra, pb, rb) == overlaps(pb, rb, pa, ra),
{
    assert(dist_sq(pa, pb) == dist_sq(pb, pa)) by (nonlinear_arith);
}

/// The circular hit area of an atom or a neutron.
#[derive(Clone, Copy, Debug, PartialEq, Eq, Structural)]
pub struct Collider {
    pub radius: i64,
}

impl Collider {
    pub open spec fn wf(self) -> bool {
        0 <= self.radius <= RADIUS_LIMIT
    }

    pub fn new(radius: i64) -> (r: Collider)
        ensures
            r.radius == radius,
    {
        Collider { radius }
    }
}

fn dist_sq_exec(a: &Vector2, b: &Vector2) -> (r: i128)
    requires
        a.in_world(),
        b.in_world(),
    ensures
        r == dist_sq(*a, *b),
        0 <= r <= 8_000_000_000_000_000_000_000_000_000_000,
{
    let dx: i128 = a.x as i128 - b.x as i128;
    let dy: i128 = a.y as i128 - b.y as i128;
    assert(0 <= dx * dx <= 4_000_000_000_000_000_000_000_000_000_000) by (nonlinear_arith)
        requires -2_000_000_000_000_000 <= dx <= 2_000_000_000_000_000;
    assert(0 <= dy * dy <= 4_000_000_000_000_000_000_000_000_000_000) by (nonlinear_arith)
        requires -2_000_000_000_000_000 <= dy <= 2_000_000_000_000_000;
    dx * dx + dy * dy
}

/// Whether the circle of `pair1` overlaps the circle of `pair2`.
pub fn is_colliding(pair1: (&Vector2, &Collider), pair2: (&Vector2, &Collider)) -> (r: bool)
    requires
        pair1.0.in_world(),
        pair2.0.in_world(),
        pair1.1.wf(),
        pair2.1.wf(),
    ensures
        r == overlaps(*pair1.0, pair1.1.radius as int, *pair2.0, pair2.1.radius as int),
{
    let d = dist_sq_exec(pair1.0, pair2.0);
    let sum: i128 = pair1.1.radius as i128 + pair2.1.radius as i128;
    assert(0 <= sum * sum <= 4_000_000_000_000_000_000_000_000_000_000) by (nonlinear_arith)
        requires 0 <= sum <= 2_000_000_000_000_000;
    sum > 0 && d < sum * sum
}

/// Whether `cords` lies inside the circle of `collider` centred at `collider_pos`.
pub fn is_cords_in_collider(cords: Vector2, collider_pos: Vector2, collider: &Collider) -> (r: bool)
    requires
        cords.in_world(),
        collider_pos.in_world(),
        collider.wf(),
    ensures
        r == contains_point(cords, collider_pos, collider.radius as int),
{
    let d = dist_sq_exec(&collider_pos, &cords);
    let rad: i128 = collider.radius as i128;
    assert(0 <= rad * rad <= 1_000_000_000_000_000_000_000_000_000_000) by (nonlinear_arith)
        requires 0 <= rad <= 1_000_000_000_000_000;
    assert(dist_sq(collider_pos, cords) == dist_sq(cords, collider_pos)) by (nonlinear_arith);
    rad > 0 && d < rad * rad
}

/// `input` limited to the range from `min` to `max`.
pub fn clamp(input: i64, min: i64, max: i64) -> (r: i64)
    requires
        min <= max,
    ensures
        r == if input <= min { min } else if input >= max { max } else { input },
{
    if input <= min {
        return min;
    }
    if input >= max {
        return max;
    }
    input
}

/// `r` is the integer square root of `n`: the largest integer whose square
/// is at most `n`.
pub open spec fn is_floor_sqrt(r: int, n: int) -> bool {
    0 <= r && r * r <= n < (r + 1) * (r + 1)
}

/// The length of `v` rounded down to an integer.
pub open spec fn length(v: Vector2) -> int {
    choose|r: int| is_floor_sqrt(r, norm_sq(v))
}

proof fn lemma_floor_sqrt_unique(a: int, b: int, n: int)
    requires
        is_floor_sqrt(a, n),
        is_floor_sqrt(b, n),
    ensures
        a == b,
{
    if a < b {
        assert((a + 1) * (a + 1) <= b * b) by (nonlinear_arith)
            requires 0 <= a, a + 1 <= b;
    } else if b < a {
        assert((b + 1) * (b + 1) <= a * a) by (nonlinear_arith)
            requires 0 <= b, b + 1 <= a;
    }
}

/// Largest absolute value of a component that `clamp_vec2_by_length` takes.
pub const COMPONENT_LIMIT: i64 = 100_000_000_000_000_000;

fn floor_sqrt(n: u128) -> (r: u128)
    requires
        n <= 0x100_0000_0000_0000_0000_0000_0000_0000u128,
    ensures
        is_floor_sqrt(r as int, n as int),
{
    let mut lo: u128 = 0;
    let mut hi: u128 = 0x1_0000_0000_0000_0000u128;
    assert(hi * hi > n) by (nonlinear_arith)
        requires hi == 0x1_0000_0000_0000_0000u128, n <= 0x100_0000_0000_0000_0000_0000_0000_0000u128;
    while lo + 1 < hi
        invariant
            lo < hi <= 0x1_0000_0000_0000_0000u128,
            lo * lo <= n,
            n < hi * hi,
        decreases hi - lo,
    {
        let mid = lo + (hi - lo) / 2;
        assert(mid * mid <= 0xffff_ffff_ffff_fffe_0000_0000_0000_0001u128) by (nonlinear_arith)
            requires mid <= 0xffff_ffff_ffff_ffffu128;
        if mid * mid <= n {
            lo = mid;
        } else {
            hi = mid;
        }
    }
    assert(hi == lo + 1);
    lo
}

/// `input` with its length held between `min` and `max`: where the rounded
/// length lies outside, the vector is scaled to the nearer bound, each
/// component rounded toward zero; a zero vector cannot be scaled and stays.
pub open spec fn clamped_by_length(input: Vector2, min: int, max: int) -> Vector2 {
    let len = length(input);
    let target = if len <= min {
        min
    } else if len >= max {
        max
    } else {
        len
    };
    if len == target || len == 0 {
        input
    } else {
        Vector2 {
            x: trunc_div(input.x * target, len) as i64,
            y: trunc_div(input.y * target, len) as i64,
        }
    }
}

/// `input` with its length held between `min` and `max`.
pub fn clamp_vec2_by_length(input: Vector2, min: i64, max: i64) -> (r: Vector2)
    requires
        0 <= min <= max,
        max <= SPEED_LIMIT / 2,
        -COMPONENT_LIMIT <= input.x <= COMPONENT_LIMIT,
        -COMPONENT_LIMIT <= input.y <= COMPONENT_LIMIT,
    ensures
        r == clamped_by_length(input, min as int, max as int),
        r.is_velocity(),
{
    let x: i128 = input.x as i128;
    let y: i128 = input.y as i128;
    assert(0 <= x * x <= 10_000_000_000_000_000_000_000_000_000_000_000) by (nonlinear_arith)
        requires -100_000_000_000_000_000 <= x <= 100_000_000_000_000_000;
    assert(0 <= y * y <= 10_000_000_000_000_000_000_000_000_000_000_000) by (nonlinear_arith)
        requires -100_000_000_000_000_000 <= y <= 100_000_000_000_000_000;
    let n = (x * x + y * y) as u128;
    let len128 = floor_sqrt(n);
    proof {
        let l = len128 as int;
        assert(n as int == norm_sq(input));
        assert(is_floor_sqrt(length(input), norm_sq(input)));
        lemma_floor_sqrt_unique(l, length(input), norm_sq(input));
        assert(l <= 500_000_000_000_000_000) by (nonlinear_arith)
            requires l * l <= 200_000_000_000_000_000_000_000_000_000_000_000, 0 <= l;
    }
    let len = len128 as i64;
    let target = clamp(len, min, max);
    proof {
        let l = len as int;
        let nn = norm_sq(input);
        assert(x * x <= nn && y * y <= nn) by (nonlinear_arith)
            requires nn == x * x + y * y;
        assert(-l <= x <= l) by (nonlinear_arith)
            requires x * x < (l + 1) * (l + 1), 0 <= l;
        assert(-l <= y <= l) by (nonlinear_arith)
            requires y * y < (l + 1) * (l + 1), 0 <= l;
    }
    if len == target || len == 0 {
        proof {
            if len == 0 {
                assert(is_floor_sqrt(0, norm_sq(input)));
                let nn = norm_sq(input);
                assert(nn < 1) by (nonlinear_arith)
                    requires nn < (0 + 1) * (0 + 1);
            }
            if len == target && len != 0 {
                let l = len as int;
                assert(norm_sq(input) <= SPEED_LIMIT * SPEED_LIMIT) by (nonlinear_arith)
                    requires
                        norm_sq(input) < (l + 1) * (l + 1),
                        0 <= l <= SPEED_LIMIT / 2;
            }
        }
        return input;
    }
    let t: i128 = target as i128;
    let l: i128 = len as i128;
    assert(-200_000_000_000_000_000_000_000_000_000 <= x * t <= 200_000_000_000_000_000_000_000_000_000)
        by (nonlinear_arith)
        requires -200_000_000_000_000_000 <= x <= 200_000_000_000_000_000, 0 <= t <= 1_000_000_000_000;
    assert(-200_000_000_000_000_000_000_000_000_000 <= y * t <= 200_000_000_000_000_000_000_000_000_000)
        by (nonlinear_arith)
        requires -200_000_000_000_000_000 <= y <= 200_000_000_000_000_000, 0 <= t <= 1_000_000_000_000;
    let rx = scale_component(x, t, l);
    let ry = scale_component(y, t, l);
    let r = Vector2 { x: rx as i64, y: ry as i64 };
    proof {
        assert(norm_sq(r) <= SPEED_LIMIT * SPEED_LIMIT) by (nonlinear_arith)
            requires
                -t <= rx <= t,
                -t <= ry <= t,
                0 <= t <= SPEED_LIMIT / 2,
                norm_sq(r) == rx * rx + ry * ry;
    }
    r
}

/// `c * t / l` rounded toward zero, for a component `c` of a vector whose
/// rounded length is `l`.
fn scale_component(c: i128, t: i128, l: i128) -> (r: i128)
    requires
        0 < l,
        -l <= c <= l,
        0 <= t <= 1_000_000_000_000,
        l <= 500_000_000_000_000_000,
    ensures
        r == trunc_div(c * t, l as int),
        -t <= r <= t,
{
    assert(-500_000_000_000_000_000_000_000_000_000 <= c * t <= 500_000_000_000_000_000_000_000_000_000)
        by (nonlinear_arith)
        requires -500_000_000_000_000_000 <= c <= 500_000_000_000_000_000, 0 <= t <= 1_000_000_000_000;
    let n = c * t;
    if n >= 0 {
        assert(n / l <= t) by (nonlinear_arith)
            requires 0 <= n, n == c * t, c <= l, 0 < l, 0 <= t;
        assert(n / l >= 0) by (nonlinear_arith)
            requires 0 <= n, 0 < l;
        n / l
    } else {
        let m: i128 = -n;
        assert(m / l <= t) by (nonlinear_arith)
            requires 0 < m, m == -(c * t), -l <= c, 0 < l, 0 <= t;
        assert(m / l >= 0) by (nonlinear_arith)
            requires 0 <= m, 0 < l;
        -(m / l)
    }
}

} // verus!
