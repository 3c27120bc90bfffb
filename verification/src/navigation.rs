//! The relative navigation solver: range, bearing angles, relative velocity
//! and time to go of a target as an observer sees it.
//!
//! The two bearing angles are arc tangents, which this crate does not
//! compute. [`sight_line`] gives the arguments to take them of, in the
//! observer's own frame with forward along `-z`; [`solve`] takes the angles as
//! they come back and brings the azimuth into range.
use crate::body::{RigidBodyState, COORD_LIMIT};
use crate::fixed::{
    div_round, is_sqrt_floor, lemma_product_bound, lemma_round_div_bound,
    lemma_round_div_reaches, lemma_sqrt_floor_exists, lemma_square_monotone, magnitude,
    round_div, sqrt_floor, SCALE,
};
use crate::rotation::{lemma_conjugate_transposes, lemma_rotated_within};
use crate::vector::{Vec2, Vec3, V2, V3};
use vstd::prelude::*;

verus! {

/// Half a turn, in steps of a degree.
pub const HALF_TURN: i64 = 180_000_000;

/// A full turn, in steps of a degree.
pub const FULL_TURN: i64 = 360_000_000;

/// The closing speed up to which a target counts as not closing.
pub const DEADBAND: i64 = 100_000;

/// The arguments of the two arc tangents that give azimuth and elevation:
/// each angle is the arc tangent of its `_y` over its `_x`.
#[derive(Clone, Copy, Debug, PartialEq, Eq, Structural)]
pub struct SightLine {
    pub azimuth_y: i64,
    pub azimuth_x: i64,
    pub elevation_y: i64,
    pub elevation_x: i64,
}

/// The arguments of the arc tangent that gives the heading of a body in the
/// plane: the heading is the arc tangent of `y` over `x`.
#[derive(Clone, Copy, Debug, PartialEq, Eq, Structural)]
pub struct HeadingLine {
    pub y: i64,
    pub x: i64,
}

/// The two bearing angles as the arc tangents give them, in steps of a degree.
#[derive(Clone, Copy, Debug, PartialEq, Eq, Structural)]
pub struct RawAngles {
    pub azimuth: i64,
    pub elevation: i64,
}

/// The time until the range is closed.
#[derive(Clone, Copy, Debug, PartialEq, Eq, Structural)]
pub enum Eta {
    /// So many steps of a second; negative while the range opens.
    Finite(i64),
    /// The target is not closing at a speed that can be measured.
    Never,
}

impl View for Eta {
    type V = Option<int>;

    open spec fn view(&self) -> Option<int> {
        match *self {
            Eta::Finite(t) => Some(t as int),
            Eta::Never => None,
        }
    }
}

/// What the observer reads of the target in one tick.
#[derive(Clone, Copy, Debug, PartialEq, Eq, Structural)]
pub struct NavigationReport {
    pub range: i64,
    pub azimuth: i64,
    pub elevation: i64,
    pub relative_speed: i64,
    pub cross_track_y: i64,
    pub cross_track_x: i64,
    pub closing_velocity: i64,
    pub eta: Eta,
}

/// What the observer reads of its own attitude and motion in the plane.
#[derive(Clone, Copy, Debug, PartialEq, Eq, Structural)]
pub struct AttitudeReport {
    pub bearing: i64,
    pub speed: i64,
    pub velocity_x: i64,
    pub velocity_y: i64,
}

/// The angle `raw` brought into the half-open turn from `-180` degrees,
/// excluded, to `180` degrees, included.
pub open spec fn azimuth_of(raw: int) -> int {
    HALF_TURN - (HALF_TURN - raw) % (FULL_TURN as int)
}

/// The angle `raw` brought into the half-open turn from `0` degrees,
/// included, to `360` degrees, excluded.
pub open spec fn bearing_of(raw: int) -> int {
    raw % (FULL_TURN as int)
}

/// The offset of the target from the observer, in the world frame.
pub open spec fn offset_of(observer: RigidBodyState, target: RigidBodyState) -> V3 {
    target.position@.minus(observer.position@)
}

/// The velocity of the target relative to the observer, in the world frame.
pub open spec fn relative_velocity_of(observer: RigidBodyState, target: RigidBodyState) -> V3 {
    target.linear_velocity@.minus(observer.linear_velocity@)
}

/// The world vector `v` in the observer's own frame.
pub open spec fn in_frame_of(observer: RigidBodyState, v: V3) -> V3 {
    observer.orientation@.conjugate().rotated(v)
}

/// The speed at which the range shrinks: the relative velocity along the
/// line of sight, reversed. Zero where the two bodies coincide.
pub open spec fn closing_velocity_of(offset: V3, velocity: V3) -> int {
    let range = sqrt_floor(offset.norm_sq());
    if range == 0 {
        0
    } else {
        round_div(-velocity.dot(offset), range)
    }
}

/// The time to go: the range over the closing speed where that is beyond
/// the deadband, either way; none where it is not.
pub open spec fn eta_of(range: int, closing: int) -> Option<int> {
    if closing > DEADBAND {
        Some(round_div(range * SCALE, closing))
    } else if closing < -DEADBAND {
        Some(-round_div(range * SCALE, -closing))
    } else {
        None
    }
}

/// The arguments of the arc tangents for a target at `local` in the
/// observer's frame.
pub open spec fn sight_line_of(local: V3) -> SightLine {
    SightLine {
        azimuth_y: local.x as i64,
        azimuth_x: (-local.z) as i64,
        elevation_y: (-local.y) as i64,
        elevation_x: sqrt_floor((V2 { x: -local.z, y: local.x }).norm_sq()) as i64,
    }
}

/// The time to go as the report holds it.
pub open spec fn eta_from(time: Option<int>) -> Eta {
    match time {
        Some(t) => Eta::Finite(t as i64),
        None => Eta::Never,
    }
}

/// The navigation report for two bodies and the angles that the arc tangents
/// of their sight line gave.
pub open spec fn report_of(
    observer: RigidBodyState,
    target: RigidBodyState,
    angles: RawAngles,
) -> NavigationReport {
    let offset = offset_of(observer, target);
    let velocity = relative_velocity_of(observer, target);
    let range = sqrt_floor(offset.norm_sq());
    let closing = closing_velocity_of(offset, velocity);
    NavigationReport {
        range: range as i64,
        azimuth: azimuth_of(angles.azimuth as int) as i64,
        elevation: angles.elevation,
        relative_speed: sqrt_floor(velocity.norm_sq()) as i64,
        cross_track_y: in_frame_of(observer, velocity).y as i64,
        cross_track_x: in_frame_of(observer, velocity).x as i64,
        closing_velocity: closing as i64,
        eta: eta_from(eta_of(range, closing)),
    }
}

/// The attitude report of a body in the plane whose heading was measured as
/// `raw_heading`.
pub open spec fn attitude_of(observer: RigidBodyState, raw_heading: int) -> AttitudeReport {
    AttitudeReport {
        bearing: bearing_of(raw_heading) as i64,
        speed: sqrt_floor(observer.linear_velocity@.truncate().norm_sq()) as i64,
        velocity_x: observer.linear_velocity.x,
        velocity_y: observer.linear_velocity.y,
    }
}

/// No coordinate of a vector is longer than the vector.
pub proof fn lemma_coordinates_within_length(v: V3)
    ensures
        0 <= v.norm_sq(),
        v.within(sqrt_floor(v.norm_sq())),
{
    let n = v.norm_sq();
    assert(0 <= v.x * v.x && 0 <= v.y * v.y && 0 <= v.z * v.z) by (nonlinear_arith);
    lemma_sqrt_floor_exists(n);
    let r = sqrt_floor(n);
    lemma_coordinate_within_root(v.x, n, r);
    lemma_coordinate_within_root(v.y, n, r);
    lemma_coordinate_within_root(v.z, n, r);
}

/// A number whose square does not exceed `n` is within the root of `n`.
proof fn lemma_coordinate_within_root(c: int, n: int, r: int)
    requires
        c * c <= n,
        is_sqrt_floor(n, r),
    ensures
        -r <= c <= r,
{
    let m = magnitude(c);
    assert(m * m == c * c) by (nonlinear_arith)
        requires
            m == c || m == -c,
    ;
    if r < m {
        lemma_square_monotone(r, m);
    }
}

/// A vector within `b` on every axis is shorter than `2 * b + 1`.
pub proof fn lemma_length_within(v: V3, b: int)
    requires
        0 <= b,
        v.within(b),
    ensures
        0 <= sqrt_floor(v.norm_sq()) <= 2 * b,
{
    let n = v.norm_sq();
    lemma_coordinates_within_length(v);
    lemma_sqrt_floor_exists(n);
    let r = sqrt_floor(n);
    lemma_product_bound(v.x, v.x, b, b);
    lemma_product_bound(v.y, v.y, b, b);
    lemma_product_bound(v.z, v.z, b, b);
    if r > 2 * b {
        lemma_square_monotone(2 * b, r);
        assert((2 * b) * (2 * b) == 4 * (b * b)) by (nonlinear_arith);
    }
}

/// The azimuth brought into range.
pub fn normalize_azimuth(raw: i64) -> (r: i64)
    ensures
        r == azimuth_of(raw as int),
        -HALF_TURN < r <= HALF_TURN,
        (raw - r) % (FULL_TURN as int) == 0,
        -HALF_TURN < raw <= HALF_TURN ==> r == raw,
{
    let full: i128 = FULL_TURN as i128;
    let away: i128 = HALF_TURN as i128 - raw as i128;
    let past: i128 = if away >= 0 {
        away % full
    } else {
        let back: i128 = (-away) % full;
        if back == 0 {
            0
        } else {
            full - back
        }
    };
    (HALF_TURN as i128 - past) as i64
}

/// The heading brought into range.
pub fn normalize_bearing(raw: i64) -> (r: i64)
    ensures
        r == bearing_of(raw as int),
        0 <= r < FULL_TURN,
        (raw - r) % (FULL_TURN as int) == 0,
        0 <= raw < FULL_TURN ==> r == raw,
{
    if raw >= 0 {
        raw % FULL_TURN
    } else {
        let back: i128 = (-(raw as i128)) % (FULL_TURN as i128);
        if back == 0 {
            0
        } else {
            (FULL_TURN as i128 - back) as i64
        }
    }
}

/// The speed at which a target at `offset`, moving at `velocity` relative to
/// the observer, closes the range.
pub fn closing_velocity(offset: Vec3, velocity: Vec3) -> (r: i64)
    requires
        offset@.within(2 * COORD_LIMIT),
        velocity@.within(2 * COORD_LIMIT),
    ensures
        r == closing_velocity_of(offset@, velocity@),
        -6 * COORD_LIMIT <= r <= 6 * COORD_LIMIT,
{
    let range: u64 = offset.length();
    if range == 0 {
        return 0;
    }
    let along: i128 = velocity.dot(offset);
    proof {
        let l: int = 0x200_0000_0000_0000;
        let o = offset@;
        let v = velocity@;
        lemma_coordinates_within_length(o);
        lemma_product_bound(v.x, o.x, l, range as int);
        lemma_product_bound(v.y, o.y, l, range as int);
        lemma_product_bound(v.z, o.z, l, range as int);
        assert((3 * l) * range == 3 * (l * range)) by (nonlinear_arith);
        assert(-(3 * l * range) <= along <= 3 * l * range);
        lemma_round_div_bound(-along as int, range as int, 3 * l);
    }
    div_round(-along, range as i128) as i64
}

/// The time to go at `range` and a closing speed of `closing`.
pub fn time_to_go(range: i64, closing: i64) -> (r: Eta)
    requires
        0 <= range <= 4 * COORD_LIMIT,
    ensures
        r@ == eta_of(range as int, closing as int),
        closing == 0 ==> r == Eta::Never,
{
    let scaled: i128 = range as i128 * SCALE as i128;
    if closing > DEADBAND {
        proof {
            lemma_ratio_bound(range as int, closing as int);
        }
        Eta::Finite(div_round(scaled, closing as i128) as i64)
    } else if closing < -DEADBAND {
        proof {
            lemma_ratio_bound(range as int, -closing as int);
        }
        Eta::Finite((-div_round(scaled, -(closing as i128))) as i64)
    } else {
        Eta::Never
    }
}

/// Beyond the deadband the time to go is at most ten times the range.
proof fn lemma_ratio_bound(range: int, closing: int)
    requires
        0 <= range,
        DEADBAND < closing,
    ensures
        0 <= round_div(range * SCALE, closing) <= 10 * range,
{
    assert(0 <= range * SCALE <= (10 * range) * closing) by (nonlinear_arith)
        requires
            0 <= range,
            100_000 < closing,
            SCALE == 1_000_000,
    ;
    lemma_round_div_bound(range * SCALE, closing, 10 * range);
    lemma_round_div_reaches(range * SCALE, closing, 0);
}

/// The offset of the target in the observer's own frame.
pub fn local_offset(observer: &RigidBodyState, target: &RigidBodyState) -> (r: Vec3)
    requires
        observer.wf(),
        target.wf(),
    ensures
        r@ == in_frame_of(*observer, offset_of(*observer, *target)),
        r@.within(6 * COORD_LIMIT),
{
    let offset = target.position.minus(observer.position);
    proof {
        observer.orientation.lemma_wf_norm();
        lemma_conjugate_transposes(observer.orientation@);
        lemma_rotated_within(observer.orientation@.conjugate(), offset@, 2 * COORD_LIMIT);
    }
    observer.orientation.inverse().rotate(offset)
}

/// What to take the arc tangents of for the azimuth and the elevation of
/// the target.
///
/// Forward is `-z` in the observer's frame, for both angles: the azimuth is
/// measured from forward toward `+x`, the elevation from the plane of `x` and
/// `z` toward `-y`.
pub fn sight_line(observer: &RigidBodyState, target: &RigidBodyState) -> (r: SightLine)
    requires
        observer.wf(),
        target.wf(),
    ensures
        r == sight_line_of(in_frame_of(*observer, offset_of(*observer, *target))),
        r.azimuth_y == in_frame_of(*observer, offset_of(*observer, *target)).x,
        r.azimuth_x == -in_frame_of(*observer, offset_of(*observer, *target)).z,
        r.elevation_y == -in_frame_of(*observer, offset_of(*observer, *target)).y,
        r.elevation_x == sqrt_floor(r.azimuth_x * r.azimuth_x + r.azimuth_y * r.azimuth_y),
        0 <= r.elevation_x,
{
    let local = local_offset(observer, target);
    let ground = Vec2 { x: -local.z, y: local.x };
    proof {
        lemma_length_within(ground@.extend(0), 6 * COORD_LIMIT);
    }
    SightLine {
        azimuth_y: local.x,
        azimuth_x: -local.z,
        elevation_y: -local.y,
        elevation_x: ground.length() as i64,
    }
}

/// The navigation report of one tick.
///
/// Range, relative speed and closing speed come from the two states alone;
/// the cross-track speeds are the relative velocity along the observer's own
/// `x` and `y`; the azimuth is `angles.azimuth` brought into range, and the
/// elevation is `angles.elevation` as it is.
pub fn solve(observer: &RigidBodyState, target: &RigidBodyState, angles: RawAngles) -> (r:
    NavigationReport)
    requires
        observer.wf(),
        target.wf(),
    ensures
        r == report_of(*observer, *target, angles),
        r.range == sqrt_floor(offset_of(*observer, *target).norm_sq()),
        r.azimuth == azimuth_of(angles.azimuth as int),
        -HALF_TURN < r.azimuth <= HALF_TURN,
        r.elevation == angles.elevation,
        r.relative_speed == sqrt_floor(relative_velocity_of(*observer, *target).norm_sq()),
        r.cross_track_x == in_frame_of(*observer, relative_velocity_of(*observer, *target)).x,
        r.cross_track_y == in_frame_of(*observer, relative_velocity_of(*observer, *target)).y,
        r.closing_velocity == closing_velocity_of(
            offset_of(*observer, *target),
            relative_velocity_of(*observer, *target),
        ),
        r.eta@ == eta_of(r.range as int, r.closing_velocity as int),
{
    let offset = target.position.minus(observer.position);
    let velocity = target.linear_velocity.minus(observer.linear_velocity);
    proof {
        observer.orientation.lemma_wf_norm();
        lemma_conjugate_transposes(observer.orientation@);
        lemma_rotated_within(observer.orientation@.conjugate(), velocity@, 2 * COORD_LIMIT);
        lemma_length_within(offset@, 2 * COORD_LIMIT);
        lemma_length_within(velocity@, 2 * COORD_LIMIT);
    }
    let local_velocity = observer.orientation.inverse().rotate(velocity);
    let range: i64 = offset.length() as i64;
    let closing: i64 = closing_velocity(offset, velocity);
    NavigationReport {
        range,
        azimuth: normalize_azimuth(angles.azimuth),
        elevation: angles.elevation,
        relative_speed: velocity.length() as i64,
        cross_track_y: local_velocity.y,
        cross_track_x: local_velocity.x,
        closing_velocity: closing,
        eta: time_to_go(range, closing),
    }
}

/// What to take the arc tangent of for the heading of a body in the plane:
/// where the body's own `+x` points in the world, as far as the plane shows
/// it.
pub fn heading_line(observer: &RigidBodyState) -> (r: HeadingLine)
    requires
        observer.orientation.wf(),
    ensures
        r.y == observer.orientation@.m10(),
        r.x == observer.orientation@.m00(),
{
    let q = observer.orientation;
    let w: i64 = q.w as i64;
    let x: i64 = q.x as i64;
    let y: i64 = q.y as i64;
    let z: i64 = q.z as i64;
    proof {
        let one: int = 0x4000_0000;
        lemma_product_bound(w as int, w as int, one, one);
        lemma_product_bound(x as int, x as int, one, one);
        lemma_product_bound(y as int, y as int, one, one);
        lemma_product_bound(z as int, z as int, one, one);
        lemma_product_bound(x as int, y as int, one, one);
        lemma_product_bound(w as int, z as int, one, one);
    }
    HeadingLine { y: 2 * (x * y + w * z), x: w * w + x * x - y * y - z * z }
}

/// The attitude report of one tick, for a body that moves in the plane.
///
/// The bearing is the body's own heading, `raw_heading` brought into range:
/// no target enters it. Speed and velocity are the body's own, in the plane
/// of the world frame.
pub fn attitude(observer: &RigidBodyState, raw_heading: i64) -> (r: AttitudeReport)
    requires
        observer.wf(),
    ensures
        r == attitude_of(*observer, raw_heading as int),
        r.bearing == bearing_of(raw_heading as int),
        0 <= r.bearing < FULL_TURN,
        r.speed == sqrt_floor(observer.linear_velocity@.truncate().norm_sq()),
        r.velocity_x == observer.linear_velocity.x,
        r.velocity_y == observer.linear_velocity.y,
{
    let planar = observer.linear_velocity.truncate();
    proof {
        lemma_length_within(planar@.extend(0), COORD_LIMIT as int);
    }
    AttitudeReport {
        bearing: normalize_bearing(raw_heading),
        speed: planar.length() as i64,
        velocity_x: observer.linear_velocity.x,
        velocity_y: observer.linear_velocity.y,
    }
}

/// Every angle, however far it has turned, is brought into the half-open
/// turn from `-180` degrees, excluded, to `180` degrees, included, and is
/// moved by whole turns only.
pub proof fn law_azimuth_in_range(raw: int)
    ensures
        -HALF_TURN < azimuth_of(raw) <= HALF_TURN,
        (raw - azimuth_of(raw)) % (FULL_TURN as int) == 0,
        -HALF_TURN < raw <= HALF_TURN ==> azimuth_of(raw) == raw,
{
}

/// Every heading is brought into the half-open turn from `0` degrees,
/// included, to `360` degrees, excluded, and is moved by whole turns only.
pub proof fn law_bearing_in_range(raw: int)
    ensures
        0 <= bearing_of(raw) < FULL_TURN,
        (raw - bearing_of(raw)) % (FULL_TURN as int) == 0,
        0 <= raw < FULL_TURN ==> bearing_of(raw) == raw,
{
}

/// There is a time to go exactly where the closing speed is beyond the
/// deadband, and it has the sign of the closing speed.
pub proof fn law_eta_deadband(range: int, closing: int)
    requires
        0 <= range,
    ensures
        eta_of(range, closing).is_none() <==> -DEADBAND <= closing <= DEADBAND,
        closing > DEADBAND ==> eta_of(range, closing).unwrap() >= 0,
        closing < -DEADBAND ==> eta_of(range, closing).unwrap() <= 0,
{
    assert(0 <= range * SCALE) by (nonlinear_arith)
        requires
            0 <= range,
            SCALE == 1_000_000,
    ;
    if closing > DEADBAND {
        lemma_round_div_reaches(range * SCALE, closing, 0);
    }
    if closing < -DEADBAND {
        lemma_round_div_reaches(range * SCALE, -closing, 0);
    }
}

} // verus!
