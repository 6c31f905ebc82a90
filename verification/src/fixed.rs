//! Fixed-point numbers and two-dimensional vectors.

use vstd::prelude::*;

verus! {

/// Fixed-point steps in one world unit; also the length of a unit vector.
pub const UNIT: i32 = 1000;

/// Microseconds in one second.
pub const SECOND: u64 = 1_000_000;

/// Quotient of `a` by a positive `b`, rounded toward zero.
pub open spec fn trunc_div(a: int, b: int) -> int
    recommends
        b > 0,
{
    if a >= 0 {
        a / b
    } else {
        -((-a) / b)
    }
}

/// The value of `v` brought into the range of `i32`.
pub open spec fn saturate(v: int) -> i32 {
    if v < i32::MIN {
        i32::MIN
    } else if v > i32::MAX {
        i32::MAX
    } else {
        v as i32
    }
}

/// The instant `span` microseconds after `now`, or the end of time where that
/// is earlier.
pub open spec fn deadline_spec(now: u64, span: u64) -> u64 {
    if now + span > u64::MAX {
        u64::MAX
    } else {
        (now + span) as u64
    }
}

/// Computes [`deadline_spec`].
pub fn deadline(now: u64, span: u64) -> (until: u64)
    ensures
        until == deadline_spec(now, span),
        until >= now,
{
    if span > u64::MAX - now {
        u64::MAX
    } else {
        now + span
    }
}

/// Computes [`saturate`].
pub fn saturate_i32(v: i128) -> (r: i32)
    ensures
        r == saturate(v as int),
{
    if v < -2147483648 {
        -2147483648
    } else if v > 2147483647 {
        2147483647
    } else {
        v as i32
    }
}

/// Computes [`trunc_div`] for a positive divisor.
pub fn div_toward_zero(a: i128, b: i128) -> (q: i128)
    requires
        b > 0,
    ensures
        q == trunc_div(a as int, b as int),
{
    a / b
}

/// A point or a displacement of the plane.
#[derive(Clone, Copy, Debug, PartialEq, Eq, Structural)]
pub struct Vec2 {
    pub x: i32,
    pub y: i32,
}

impl Vec2 {
    /// The origin.
    pub fn zero() -> (v: Vec2)
        ensures
            v == (Vec2 { x: 0, y: 0 }),
    {
        Vec2 { x: 0, y: 0 }
    }

    /// Squared distance between two points.
    pub open spec fn dist2(self, other: Vec2) -> int {
        (other.x - self.x) * (other.x - self.x) + (other.y - self.y) * (other.y - self.y)
    }

    /// True when `other` lies nearer than `radius`.
    pub open spec fn near(self, other: Vec2, radius: int) -> bool {
        self.dist2(other) < radius * radius
    }

    /// Computes [`Vec2::dist2`].
    pub fn distance_squared(self, other: Vec2) -> (d: i128)
        ensures
            d == self.dist2(other),
            0 <= d <= 0x2_0000_0000_0000_0000,
    {
        let dx: i128 = other.x as i128 - self.x as i128;
        let dy: i128 = other.y as i128 - self.y as i128;
        assert(0 <= dx * dx <= 0x1_0000_0000_0000_0000) by (nonlinear_arith)
            requires
                -0x1_0000_0000 <= dx <= 0x1_0000_0000,
        ;
        assert(0 <= dy * dy <= 0x1_0000_0000_0000_0000) by (nonlinear_arith)
            requires
                -0x1_0000_0000 <= dy <= 0x1_0000_0000,
        ;
        dx * dx + dy * dy
    }

    /// Computes [`Vec2::near`].
    pub fn is_near(self, other: Vec2, radius: u32) -> (b: bool)
        ensures
            b == self.near(other, radius as int),
    {
        let r: i128 = radius as i128;
        assert(0 <= r * r <= 0x1_0000_0000_0000_0000) by (nonlinear_arith)
            requires
                0 <= r <= 0x1_0000_0000,
        ;
        self.distance_squared(other) < r * r
    }
}

/// True when `r` is the least natural number whose square reaches `n`.
pub open spec fn is_ceil_sqrt(n: int, r: int) -> bool {
    &&& r >= 0
    &&& r * r >= n
    &&& r == 0 || (r - 1) * (r - 1) < n
}

/// The least natural number whose square reaches `n`: the square root of `n`,
/// rounded up.
pub open spec fn ceil_sqrt(n: int) -> int {
    choose|r: int| is_ceil_sqrt(n, r)
}

proof fn lemma_ceil_sqrt_search(n: int, r: int) -> (s: int)
    requires
        0 <= r,
        r == 0 || (r - 1) * (r - 1) < n,
    ensures
        is_ceil_sqrt(n, s),
    decreases n - r,
{
    if r * r >= n {
        r
    } else {
        assert(r < n) by (nonlinear_arith)
            requires
                r >= 0,
                r * r < n,
        ;
        lemma_ceil_sqrt_search(n, r + 1)
    }
}

/// Two numbers that both are the rounded-up square root of `n` are equal.
pub proof fn lemma_ceil_sqrt_unique(n: int, r1: int, r2: int)
    requires
        is_ceil_sqrt(n, r1),
        is_ceil_sqrt(n, r2),
    ensures
        r1 == r2,
{
    if r1 < r2 {
        assert((r2 - 1) * (r2 - 1) >= r1 * r1) by (nonlinear_arith)
            requires
                0 <= r1 <= r2 - 1,
        ;
    } else if r2 < r1 {
        assert((r1 - 1) * (r1 - 1) >= r2 * r2) by (nonlinear_arith)
            requires
                0 <= r2 <= r1 - 1,
        ;
    }
}

/// [`ceil_sqrt`] is the rounded-up square root, and the only one.
pub proof fn lemma_ceil_sqrt(n: int)
    ensures
        is_ceil_sqrt(n, ceil_sqrt(n)),
        forall|r: int| is_ceil_sqrt(n, r) ==> r == ceil_sqrt(n),
{
    let s = lemma_ceil_sqrt_search(n, 0);
    assert forall|r: int| is_ceil_sqrt(n, r) implies r == ceil_sqrt(n) by {
        lemma_ceil_sqrt_unique(n, r, ceil_sqrt(n));
    }
}

/// Computes [`ceil_sqrt`].
pub fn isqrt_ceil(n: u128) -> (r: u128)
    ensures
        r == ceil_sqrt(n as int),
        is_ceil_sqrt(n as int, r as int),
        r <= 0x1_0000_0000_0000_0000,
{
    let top: u128 = 0xFFFF_FFFF_FFFF_FFFF;
    assert(top * top == 0xFFFF_FFFF_FFFF_FFFE_0000_0000_0000_0001) by (nonlinear_arith)
        requires
            top == 0xFFFF_FFFF_FFFF_FFFF,
    ;
    let mut lo: u128 = 0;
    let mut hi: u128 = top;
    if n > top * top {
        hi = top + 1;
        lo = hi;
        assert(hi * hi >= n) by (nonlinear_arith)
            requires
                hi == 0x1_0000_0000_0000_0000,
                n <= 0xFFFF_FFFF_FFFF_FFFF_FFFF_FFFF_FFFF_FFFF,
        ;
    }
    while lo < hi
        invariant
            lo <= hi <= 0x1_0000_0000_0000_0000,
            lo < hi ==> hi <= 0xFFFF_FFFF_FFFF_FFFF,
            hi * hi >= n,
            lo == 0 || (lo - 1) * (lo - 1) < n,
        decreases hi - lo,
    {
        let mid: u128 = lo + (hi - lo) / 2;
        assert(mid * mid <= 0xFFFF_FFFF_FFFF_FFFE_0000_0000_0000_0001) by (nonlinear_arith)
            requires
                0 <= mid <= 0xFFFF_FFFF_FFFF_FFFF,
        ;
        if mid * mid >= n {
            hi = mid;
        } else {
            lo = mid + 1;
        }
    }
    proof {
        assert(is_ceil_sqrt(n as int, lo as int));
        lemma_ceil_sqrt(n as int);
    }
    lo
}

/// Absolute value.
pub open spec fn abs(v: int) -> int {
    if v < 0 {
        -v
    } else {
        v
    }
}

/// The vector of length [`UNIT`] that points the way of `(dx, dy)`, each
/// component rounded toward zero; the zero vector where `(dx, dy)` is zero.
///
/// The length of `(dx, dy)` is taken a thousand times finer than the
/// components and rounded up, so that the result is never longer than
/// [`UNIT`].
pub open spec fn unit_toward(dx: int, dy: int) -> Vec2 {
    if dx == 0 && dy == 0 {
        Vec2 { x: 0, y: 0 }
    } else {
        let len = ceil_sqrt(UNIT * UNIT * (dx * dx + dy * dy));
        Vec2 {
            x: trunc_div(dx * (UNIT * UNIT), len) as i32,
            y: trunc_div(dy * (UNIT * UNIT), len) as i32,
        }
    }
}

proof fn lemma_floor_div(a: int, d: int)
    requires
        a >= 0,
        d > 0,
    ensures
        0 <= a / d,
        (a / d) * d <= a,
        a < (a / d + 1) * d,
{
    vstd::arithmetic::div_mod::lemma_fundamental_div_mod(a, d);
    vstd::arithmetic::div_mod::lemma_mod_pos_bound(a, d);
    vstd::arithmetic::div_mod::lemma_div_pos_is_pos(a, d);
    assert((a / d + 1) * d == (a / d) * d + d) by (nonlinear_arith);
    assert(d * (a / d) == (a / d) * d) by (nonlinear_arith);
}

/// What one component of a unit vector is, by its absolute value: for a
/// component of size `a` in a vector of squared length `s`, with `len` the
/// rounded-up length in the finer scale.
proof fn lemma_unit_component(a: int, s: int, len: int)
    requires
        0 <= a,
        a * a <= s,
        1 <= s,
        is_ceil_sqrt(1_000_000 * s, len),
    ensures
        len >= 1000,
        0 <= (a * 1_000_000) / len <= 1000,
        ((a * 1_000_000) / len) * len <= a * 1_000_000,
        a * 1_000_000 < ((a * 1_000_000) / len + 1) * len,
{
    let q = (a * 1_000_000) / len;
    assert(len >= 1000) by (nonlinear_arith)
        requires
            len >= 0,
            len * len >= 1_000_000 * s,
            s >= 1,
    ;
    assert(len >= 1000 * a) by (nonlinear_arith)
        requires
            len >= 0,
            a >= 0,
            len * len >= 1_000_000 * s,
            a * a <= s,
    ;
    lemma_floor_div(a * 1_000_000, len);
    assert(q <= 1000) by (nonlinear_arith)
        requires
            q * len <= a * 1_000_000,
            len >= 1000 * a,
            len > 0,
            q >= 0,
    ;
}

/// A direction has length zero or, within three thousandths, length one:
/// [`unit_toward`] gives the zero vector for the zero vector, and otherwise a
/// vector whose length lies between `UNIT - 3` and `UNIT`.
pub proof fn lemma_unit_toward_length(dx: int, dy: int)
    ensures
        dx == 0 && dy == 0 ==> unit_toward(dx, dy) == (Vec2 { x: 0, y: 0 }),
        !(dx == 0 && dy == 0) ==> ({
            let v = unit_toward(dx, dy);
            &&& (UNIT - 3) * (UNIT - 3) <= v.x * v.x + v.y * v.y <= UNIT * UNIT
            &&& abs(v.x as int) == (abs(dx) * (UNIT * UNIT)) / ceil_sqrt(
                UNIT * UNIT * (dx * dx + dy * dy),
            )
            &&& abs(v.y as int) == (abs(dy) * (UNIT * UNIT)) / ceil_sqrt(
                UNIT * UNIT * (dx * dx + dy * dy),
            )
            &&& dx >= 0 ==> v.x >= 0
            &&& dx <= 0 ==> v.x <= 0
            &&& dy >= 0 ==> v.y >= 0
            &&& dy <= 0 ==> v.y <= 0
        }),
{
    if !(dx == 0 && dy == 0) {
        let a = abs(dx);
        let b = abs(dy);
        let s = dx * dx + dy * dy;
        assert(a * a == dx * dx) by (nonlinear_arith)
            requires
                a == dx || a == -dx,
        ;
        assert(b * b == dy * dy) by (nonlinear_arith)
            requires
                b == dy || b == -dy,
        ;
        assert(a * a >= 0 && b * b >= 0) by (nonlinear_arith);
        assert(s >= 1) by (nonlinear_arith)
            requires
                s == a * a + b * b,
                a >= 0,
                b >= 0,
                a > 0 || b > 0,
        ;
        let n = 1_000_000 * s;
        let len = ceil_sqrt(n);
        lemma_ceil_sqrt(n);
        lemma_unit_component(a, s, len);
        lemma_unit_component(b, s, len);
        let qx = (a * 1_000_000) / len;
        let qy = (b * 1_000_000) / len;
        let v = unit_toward(dx, dy);
        assert(-dx * 1_000_000 == -(dx * 1_000_000)) by (nonlinear_arith);
        assert(-dy * 1_000_000 == -(dy * 1_000_000)) by (nonlinear_arith);
        assert(trunc_div(dx * 1_000_000, len) == if dx >= 0 {
            qx
        } else {
            -qx
        });
        assert(trunc_div(dy * 1_000_000, len) == if dy >= 0 {
            qy
        } else {
            -qy
        });
        assert(v.x == if dx >= 0 {
            qx
        } else {
            -qx
        });
        assert(v.y == if dy >= 0 {
            qy
        } else {
            -qy
        });
        assert(v.x * v.x == qx * qx) by (nonlinear_arith)
            requires
                v.x == qx || v.x == -qx,
        ;
        assert(v.y * v.y == qy * qy) by (nonlinear_arith)
            requires
                v.y == qy || v.y == -qy,
        ;
        // never longer than one
        assert(qx * qx * (len * len) <= a * a * 1_000_000_000_000) by (nonlinear_arith)
            requires
                0 <= qx,
                0 <= len,
                0 <= a,
                qx * len <= a * 1_000_000,
        ;
        assert(qy * qy * (len * len) <= b * b * 1_000_000_000_000) by (nonlinear_arith)
            requires
                0 <= qy,
                0 <= len,
                0 <= b,
                qy * len <= b * 1_000_000,
        ;
        assert(qx * qx + qy * qy <= 1_000_000) by (nonlinear_arith)
            requires
                qx * qx * (len * len) <= a * a * 1_000_000_000_000,
                qy * qy * (len * len) <= b * b * 1_000_000_000_000,
                s == a * a + b * b,
                (len - 1) * (len - 1) < 1_000_000 * s,
                len * len >= 1_000_000 * s,
                len >= 1000,
        ;
        // never much shorter
        let m = (qx + 1) * (qx + 1) + (qy + 1) * (qy + 1);
        assert((qx + 1) * (qx + 1) * (len * len) >= a * a * 1_000_000_000_000) by (nonlinear_arith)
            requires
                0 <= qx,
                0 <= len,
                0 <= a,
                a * 1_000_000 < (qx + 1) * len,
        ;
        assert((qy + 1) * (qy + 1) * (len * len) >= b * b * 1_000_000_000_000) by (nonlinear_arith)
            requires
                0 <= qy,
                0 <= len,
                0 <= b,
                b * 1_000_000 < (qy + 1) * len,
        ;
        assert(m * (len * len) >= 1_000_000 * (1_000_000 * s)) by (nonlinear_arith)
            requires
                m == (qx + 1) * (qx + 1) + (qy + 1) * (qy + 1),
                (qx + 1) * (qx + 1) * (len * len) >= a * a * 1_000_000_000_000,
                (qy + 1) * (qy + 1) * (len * len) >= b * b * 1_000_000_000_000,
                s == a * a + b * b,
        ;
        assert((len - 1) * 1000 >= len * 999);
        assert((len - 1) * (len - 1) * 1_000_000 >= (len * len) * 998_001) by (nonlinear_arith)
            requires
                (len - 1) * 1000 >= len * 999,
                len >= 1000,
        ;
        assert(m > 998_001) by (nonlinear_arith)
            requires
                m * (len * len) >= 1_000_000 * (1_000_000 * s),
                1_000_000 * s > (len - 1) * (len - 1),
                (len - 1) * (len - 1) * 1_000_000 >= (len * len) * 998_001,
                len >= 1000,
        ;
        assert(qx + qy <= 1414) by (nonlinear_arith)
            requires
                qx * qx + qy * qy <= 1_000_000,
                qx >= 0,
                qy >= 0,
        ;
        assert(m == qx * qx + qy * qy + 2 * (qx + qy) + 2) by (nonlinear_arith)
            requires
                m == (qx + 1) * (qx + 1) + (qy + 1) * (qy + 1),
        ;
    }
}

/// A direction points the way it was asked to: it lies on the same side of
/// both axes as `(dx, dy)`, and it leaves the line through `(dx, dy)` by no
/// more than rounding each component brings.
pub proof fn lemma_unit_toward_parallel(dx: int, dy: int)
    ensures
        ({
            let v = unit_toward(dx, dy);
            &&& abs(v.x * dy - v.y * dx) < abs(dx) + abs(dy) || (dx == 0 && dy == 0)
            &&& dx >= 0 ==> v.x >= 0
            &&& dx <= 0 ==> v.x <= 0
            &&& dy >= 0 ==> v.y >= 0
            &&& dy <= 0 ==> v.y <= 0
        }),
{
    lemma_unit_toward_length(dx, dy);
    if !(dx == 0 && dy == 0) {
        let a = abs(dx);
        let b = abs(dy);
        let s = dx * dx + dy * dy;
        let len = ceil_sqrt(1_000_000 * s);
        let v = unit_toward(dx, dy);
        let qx = (a * 1_000_000) / len;
        let qy = (b * 1_000_000) / len;
        assert(a * a == dx * dx) by (nonlinear_arith)
            requires
                a == dx || a == -dx,
        ;
        assert(b * b == dy * dy) by (nonlinear_arith)
            requires
                b == dy || b == -dy,
        ;
        assert(a * a >= 0 && b * b >= 0) by (nonlinear_arith);
        assert(s >= 1) by (nonlinear_arith)
            requires
                s == a * a + b * b,
                a >= 0,
                b >= 0,
                a > 0 || b > 0,
        ;
        lemma_ceil_sqrt(1_000_000 * s);
        lemma_unit_component(a, s, len);
        lemma_unit_component(b, s, len);
        assert(abs(v.x as int) == qx && abs(v.y as int) == qy);
        let cross = qx * b - qy * a;
        assert(abs(v.x * dy - v.y * dx) == abs(cross)) by (nonlinear_arith)
            requires
                (v.x == qx && dx == a) || (v.x == -qx && dx == -a),
                (v.y == qy && dy == b) || (v.y == -qy && dy == -b),
                cross == qx * b - qy * a,
        ;
        assert(-(a + b) < cross < a + b) by (nonlinear_arith)
            requires
                cross == qx * b - qy * a,
                len > 0,
                a >= 0,
                b >= 0,
                a > 0 || b > 0,
                qx * len <= a * 1_000_000,
                a * 1_000_000 < (qx + 1) * len,
                qy * len <= b * 1_000_000,
                b * 1_000_000 < (qy + 1) * len,
        ;
    }
}

impl Vec2 {
    /// The unit vector that points from `self` to `target`.
    pub open spec fn direction(self, target: Vec2) -> Vec2 {
        unit_toward(target.x - self.x, target.y - self.y)
    }

    /// Computes [`Vec2::direction`].
    pub fn direction_to(self, target: Vec2) -> (v: Vec2)
        ensures
            v == self.direction(target),
            self == target ==> v == (Vec2 { x: 0, y: 0 }),
            self != target ==> (UNIT - 3) * (UNIT - 3) <= v.x * v.x + v.y * v.y <= UNIT * UNIT,
    {
        let dx: i128 = target.x as i128 - self.x as i128;
        let dy: i128 = target.y as i128 - self.y as i128;
        proof {
            lemma_unit_toward_length(dx as int, dy as int);
        }
        if dx == 0 && dy == 0 {
            return Vec2 { x: 0, y: 0 };
        }
        let s: i128 = self.distance_squared(target);
        assert(s == dx * dx + dy * dy);
        let n: u128 = (1_000_000 * s) as u128;
        let len: u128 = isqrt_ceil(n);
        let ghost a = abs(dx as int);
        let ghost b = abs(dy as int);
        proof {
            assert(a * a == dx * dx) by (nonlinear_arith)
                requires
                    a == dx || a == -dx,
            ;
            assert(b * b == dy * dy) by (nonlinear_arith)
                requires
                    b == dy || b == -dy,
            ;
            assert(a * a >= 0 && b * b >= 0) by (nonlinear_arith);
            assert(s >= 1) by (nonlinear_arith)
                requires
                    s == a * a + b * b,
                    a >= 0,
                    b >= 0,
                    a > 0 || b > 0,
            ;
            lemma_unit_component(a, s as int, len as int);
            lemma_unit_component(b, s as int, len as int);
            assert(-dx * 1_000_000 == -(dx * 1_000_000)) by (nonlinear_arith);
            assert(-dy * 1_000_000 == -(dy * 1_000_000)) by (nonlinear_arith);
        }
        let l: i128 = len as i128;
        let x: i128 = div_toward_zero(dx * 1_000_000, l);
        let y: i128 = div_toward_zero(dy * 1_000_000, l);
        Vec2 { x: x as i32, y: y as i32 }
    }
}

} // verus!
