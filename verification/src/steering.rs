//! Steering toward an objective, and the motion that follows from it.
//!
//! The wanted speed grows with the square of the distance to the objective up
//! to a cap, so that an animal slows down as it arrives. The speed it really
//! has rises toward the wanted speed at a bounded rate and falls to it at once.

use vstd::prelude::*;
use crate::fixed::{div_toward_zero, saturate, saturate_i32, trunc_div, Vec2};

verus! {

/// The most that a speed rises in one second.
pub const ACCEL: u32 = 100_000;

/// The two components of the jitter added to each heading lie below this.
pub const JITTER: u32 = 100;

/// What steering last asked for: a speed and a direction, the direction a unit
/// vector or zero.
#[derive(Clone, Copy, Debug, PartialEq, Eq, Structural)]
pub struct AiResult {
    pub target_speed: i32,
    pub target_dir: Vec2,
}

/// The speed that a creature has now.
#[derive(Clone, Copy, Debug, PartialEq, Eq, Structural)]
pub struct Speed(pub i32);

/// The push away from close neighbours, computed anew in every tick.
#[derive(Clone, Copy, Debug, PartialEq, Eq, Structural)]
pub struct CollisionAvoid {
    pub getaway: Vec2,
}

/// Where a creature wants to go, and how fast it may go there.
#[derive(Clone, Copy, Debug, PartialEq, Eq, Structural)]
pub struct Objective {
    pub point: Vec2,
    pub max_speed: i32,
}

/// The smaller of two numbers.
pub open spec fn min(a: int, b: int) -> int {
    if a <= b {
        a
    } else {
        b
    }
}

/// The wanted speed at squared distance `d2` from the objective: `gain`
/// thousandths of the squared distance in units, and not above `max_speed`.
pub open spec fn approach_speed(max_speed: int, gain: int, d2: int) -> int {
    min(max_speed, (gain * d2) / 1_000_000)
}

/// What steering asks of a creature at `pos` with the given objective.
pub open spec fn steer_spec(pos: Vec2, objective: Objective, gain: u32) -> AiResult {
    AiResult {
        target_speed: approach_speed(
            objective.max_speed as int,
            gain as int,
            pos.dist2(objective.point),
        ) as i32,
        target_dir: pos.direction(objective.point),
    }
}

/// Computes [`steer_spec`].
pub fn steer(pos: Vec2, objective: Objective, gain: u32) -> (res: AiResult)
    ensures
        res == steer_spec(pos, objective, gain),
        res.target_speed == approach_speed(
            objective.max_speed as int,
            gain as int,
            pos.dist2(objective.point),
        ),
        objective.max_speed >= 0 ==> 0 <= res.target_speed <= objective.max_speed,
        pos == objective.point ==> res.target_dir == (Vec2 { x: 0, y: 0 }),
        pos != objective.point ==> 997 * 997 <= res.target_dir.x * res.target_dir.x
            + res.target_dir.y * res.target_dir.y <= 1000 * 1000,
{
    let d2: i128 = pos.distance_squared(objective.point);
    let g: i128 = gain as i128;
    assert(0 <= g * d2 <= 0x2_0000_0000_0000_0000_0000_0000) by (nonlinear_arith)
        requires
            0 <= g <= 0x1_0000_0000,
            0 <= d2 <= 0x2_0000_0000_0000_0000,
    ;
    let wanted: i128 = (g * d2) / 1_000_000;
    let cap: i128 = objective.max_speed as i128;
    let target_speed: i32 = if cap <= wanted {
        objective.max_speed
    } else {
        wanted as i32
    };
    AiResult { target_speed, target_dir: pos.direction_to(objective.point) }
}

/// How far a creature gets along one axis in `dt` microseconds at `speed`,
/// where `heading` is that axis of its heading: their product, in fixed-point
/// steps, rounded toward zero.
pub open spec fn displacement(speed: int, dt: int, heading: int) -> int {
    trunc_div(speed * dt * heading, 1_000_000_000)
}

/// The place of a creature after `dt` microseconds: it moves at `speed` along
/// the sum of its direction, the jitter and the push of its neighbours, and
/// stops at the edge of the numbers.
pub open spec fn next_position(
    pos: Vec2,
    speed: Speed,
    dt: u32,
    dir: Vec2,
    jitter: Vec2,
    getaway: Vec2,
) -> Vec2 {
    Vec2 {
        x: saturate(pos.x + displacement(speed.0 as int, dt as int, dir.x + jitter.x + getaway.x)),
        y: saturate(pos.y + displacement(speed.0 as int, dt as int, dir.y + jitter.y + getaway.y)),
    }
}

/// The speed of a creature after `dt` microseconds: it falls to `target` at
/// once, and rises toward it by no more than [`ACCEL`] in a second.
pub open spec fn next_speed(speed: Speed, target: i32, dt: u32) -> int {
    speed.0 + min(target - speed.0, (ACCEL * dt) / 1_000_000)
}

fn displace_axis(pos: i32, speed: i32, dt: u32, dir: i32, jitter: i32, getaway: i32) -> (r: i32)
    ensures
        r == saturate(pos + displacement(speed as int, dt as int, dir + jitter + getaway)),
{
    let heading: i128 = dir as i128 + jitter as i128 + getaway as i128;
    let s: i128 = speed as i128;
    let t: i128 = dt as i128;
    assert(-0x8000_0000_0000_0000 <= s * t <= 0x8000_0000_0000_0000) by (nonlinear_arith)
        requires
            -0x8000_0000 <= s <= 0x8000_0000,
            0 <= t <= 0x1_0000_0000,
    ;
    let st: i128 = s * t;
    assert(-0x2_0000_0000_0000_0000_0000_0000 <= st * heading
        <= 0x2_0000_0000_0000_0000_0000_0000) by (nonlinear_arith)
        requires
            -0x8000_0000_0000_0000 <= st <= 0x8000_0000_0000_0000,
            -0x2_0000_0000 <= heading <= 0x2_0000_0000,
    ;
    let off: i128 = div_toward_zero(st * heading, 1_000_000_000);
    assert(-0x2_0000_0000_0000_0000_0000_0000 <= off <= 0x2_0000_0000_0000_0000_0000_0000) by {
        let p = (st * heading) as int;
        if p >= 0 {
            vstd::arithmetic::div_mod::lemma_div_pos_is_pos(p, 1_000_000_000);
            vstd::arithmetic::div_mod::lemma_basic_div(0, 1_000_000_000);
            vstd::arithmetic::div_mod::lemma_div_is_ordered_by_denominator(p, 1, 1_000_000_000);
        } else {
            vstd::arithmetic::div_mod::lemma_div_pos_is_pos(-p, 1_000_000_000);
            vstd::arithmetic::div_mod::lemma_div_is_ordered_by_denominator(-p, 1, 1_000_000_000);
        }
    }
    saturate_i32(pos as i128 + off)
}

/// Computes [`next_position`].
pub fn advance_position(
    pos: Vec2,
    speed: Speed,
    dt: u32,
    dir: Vec2,
    jitter: Vec2,
    getaway: Vec2,
) -> (next: Vec2)
    ensures
        next == next_position(pos, speed, dt, dir, jitter, getaway),
        speed.0 == 0 || dt == 0 ==> next == pos,
{
    assert(speed.0 == 0 || dt == 0 ==> forall|h: int|
        #![auto]
        displacement(speed.0 as int, dt as int, h) == 0) by (nonlinear_arith);
    Vec2 {
        x: displace_axis(pos.x, speed.0, dt, dir.x, jitter.x, getaway.x),
        y: displace_axis(pos.y, speed.0, dt, dir.y, jitter.y, getaway.y),
    }
}

/// Computes [`next_speed`]. A speed that is not negative stays so when the
/// wanted speed is not negative.
pub fn advance_speed(speed: Speed, target: i32, dt: u32) -> (next: Speed)
    ensures
        next.0 == next_speed(speed, target, dt),
        speed.0 >= 0 && target >= 0 ==> next.0 >= 0,
        next.0 <= target || next.0 <= speed.0,
        target <= speed.0 ==> next.0 == target,
{
    let span: i64 = dt as i64;
    assert(ACCEL * dt == 100_000 * span) by (nonlinear_arith)
        requires
            ACCEL == 100_000,
            span == dt,
    ;
    let rise: i64 = (100_000 * span) / 1_000_000;
    let gap: i64 = target as i64 - speed.0 as i64;
    if gap <= rise {
        Speed(target)
    } else {
        Speed((speed.0 as i64 + rise) as i32)
    }
}

/// Whatever the place and the objective, the direction that steering gives is
/// the zero vector or a vector of length one, within three thousandths; it is
/// the zero vector just when the creature stands on its objective.
pub proof fn lemma_steer_direction(pos: Vec2, objective: Objective, gain: u32)
    ensures
        ({
            let dir = steer_spec(pos, objective, gain).target_dir;
            let len2 = dir.x * dir.x + dir.y * dir.y;
            &&& pos == objective.point <==> dir == (Vec2 { x: 0, y: 0 })
            &&& pos == objective.point ==> len2 == 0
            &&& pos != objective.point ==> 997 * 997 <= len2 <= 1000 * 1000
        }),
{
    crate::fixed::lemma_unit_toward_length(
        objective.point.x - pos.x,
        objective.point.y - pos.y,
    );
}

/// A speed that starts at zero or above never turns negative, whatever the
/// tick length, as long as the wanted speed is not negative.
pub proof fn lemma_speed_stays_nonnegative(speed: Speed, target: i32, dt: u32)
    requires
        speed.0 >= 0,
        target >= 0,
    ensures
        next_speed(speed, target, dt) >= 0,
{
    let rise = (ACCEL * dt) / 1_000_000;
    assert(ACCEL * dt >= 0) by (nonlinear_arith)
        requires
            ACCEL == 100_000,
            dt >= 0,
    ;
    vstd::arithmetic::div_mod::lemma_div_pos_is_pos(ACCEL * dt, 1_000_000);
    assert(rise >= 0);
}

/// The wanted speed that steering gives is never negative when the cap is
/// not, and never above the cap.
pub proof fn lemma_target_speed_bounds(pos: Vec2, objective: Objective, gain: u32)
    requires
        objective.max_speed >= 0,
    ensures
        0 <= steer_spec(pos, objective, gain).target_speed <= objective.max_speed,
{
    let d2 = pos.dist2(objective.point);
    assert(d2 >= 0) by (nonlinear_arith)
        requires
            d2 == pos.dist2(objective.point),
    ;
    assert(gain * d2 >= 0) by (nonlinear_arith)
        requires
            gain >= 0,
            d2 >= 0,
    ;
    vstd::arithmetic::div_mod::lemma_div_pos_is_pos(gain * d2, 1_000_000);
}

} // verus!
