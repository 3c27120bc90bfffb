//! The flight controller: from held keys to the impulses of one tick.
//!
//! Two bodies are flown here, each with its own damping policy. The ship
//! moves in space and damps its spin passively: while the damping key is held
//! the integrator's angular damping coefficient is raised, and it is cleared
//! on release. The tug moves in the plane and damps its spin actively, with a
//! torque against its angular velocity.
use crate::body::RigidBodyState;
use crate::fixed::{
    clamp_spec, div_round, lemma_product_bound, lemma_round_div_reaches, magnitude, round_div,
    SCALE,
};
use crate::rotation::{Quat, Q4, ROTATE_LIMIT};
use crate::rotation_laws::{law_planar_rotation, law_rotation_round_trip, within_one_step};
use crate::vector::{lemma_clamped_length, Vec3, V3};
use vstd::prelude::*;

verus! {

/// Which control keys are held in this tick, and whether the damping key was
/// let go in it.
#[derive(Clone, Copy, Debug, PartialEq, Eq, Structural)]
pub struct ControlInput {
    pub forward: bool,
    pub back: bool,
    pub left: bool,
    pub right: bool,
    pub up: bool,
    pub down: bool,
    pub roll_left: bool,
    pub roll_right: bool,
    pub pitch_up: bool,
    pub pitch_down: bool,
    pub yaw_left: bool,
    pub yaw_right: bool,
    pub damping: bool,
    pub damping_released: bool,
}

/// The strengths a body was configured with.
#[derive(Clone, Copy, Debug, PartialEq, Eq, Structural)]
pub struct ThrustProfile {
    pub thrust: i64,
    pub torque: i64,
}

/// The impulses handed to the integrator, in the world frame.
#[derive(Clone, Copy, Debug, PartialEq, Eq, Structural)]
pub struct ImpulseCommand {
    pub linear: Vec3,
    pub angular: Vec3,
}

/// What one tick of the ship's controller decides.
#[derive(Clone, Copy, Debug, PartialEq, Eq, Structural)]
pub struct ControlOutput {
    pub impulse: ImpulseCommand,
    pub angular_damping: i64,
}

/// The angular damping coefficient while the damping key is held.
pub const ACTIVE_DAMPING: i64 = 5_000_000;

/// The pull of a pair of opposed keys: `strength` toward the one that is held
/// alone, nothing where both or neither are.
pub open spec fn axis(plus: bool, minus: bool, strength: int) -> int {
    if plus == minus {
        0
    } else if plus {
        strength
    } else {
        -strength
    }
}

impl ControlInput {
    /// No key is held and none was let go.
    pub open spec fn idle(self) -> bool {
        &&& !self.forward && !self.back && !self.left && !self.right && !self.up && !self.down
        &&& !self.roll_left && !self.roll_right && !self.pitch_up && !self.pitch_down
        &&& !self.yaw_left && !self.yaw_right && !self.damping && !self.damping_released
    }

    /// The force the ship's keys ask for, along its own axes: right is `+x`,
    /// up is `+y`, forward is `-z`.
    pub open spec fn ship_force(self, strength: int) -> V3 {
        V3 {
            x: axis(self.right, self.left, strength),
            y: axis(self.up, self.down, strength),
            z: axis(self.back, self.forward, strength),
        }
    }

    /// The torque the ship's keys ask for, about its own axes.
    pub open spec fn ship_torque(self, strength: int) -> V3 {
        V3 {
            x: axis(self.pitch_down, self.pitch_up, strength),
            y: axis(self.yaw_left, self.yaw_right, strength),
            z: axis(self.roll_left, self.roll_right, strength),
        }
    }

    /// The force the tug's keys ask for, along its own axes: right is `+x`,
    /// forward is `+y`.
    pub open spec fn tug_force(self, strength: int) -> V3 {
        V3 {
            x: axis(self.right, self.left, strength),
            y: axis(self.forward, self.back, strength),
            z: 0,
        }
    }

    /// The angular damping coefficient after this tick: raised while the
    /// damping key is held, cleared in the tick it is let go, kept otherwise.
    pub open spec fn damping_after(self, current: int) -> int {
        if self.damping {
            ACTIVE_DAMPING as int
        } else if self.damping_released {
            0
        } else {
            current
        }
    }

    /// An input with no key held.
    pub fn none() -> (r: ControlInput)
        ensures
            r.idle(),
    {
        ControlInput {
            forward: false,
            back: false,
            left: false,
            right: false,
            up: false,
            down: false,
            roll_left: false,
            roll_right: false,
            pitch_up: false,
            pitch_down: false,
            yaw_left: false,
            yaw_right: false,
            damping: false,
            damping_released: false,
        }
    }
}

impl ThrustProfile {
    /// Both strengths are magnitudes that a rotation can carry.
    pub open spec fn wf(self) -> bool {
        &&& 0 <= self.thrust <= ROTATE_LIMIT
        &&& 0 <= self.torque <= ROTATE_LIMIT
    }

    /// The profile with the given strengths, where both are magnitudes
    /// within [`ROTATE_LIMIT`].
    pub fn new(thrust: i64, torque: i64) -> (r: Option<ThrustProfile>)
        ensures
            r.is_some() <==> (ThrustProfile { thrust, torque }).wf(),
            r.is_some() ==> r.unwrap() == (ThrustProfile { thrust, torque }),
    {
        if 0 <= thrust && thrust <= ROTATE_LIMIT && 0 <= torque && torque <= ROTATE_LIMIT {
            Some(ThrustProfile { thrust, torque })
        } else {
            None
        }
    }
}

/// The torque against a spin of `omega`: in proportion to the spin, boosted
/// by up to two as the spin slows below one unit, and never beyond `torque`.
pub open spec fn counter_torque(omega: int, torque: int) -> int {
    let slow = if magnitude(omega) < SCALE {
        magnitude(omega)
    } else {
        SCALE as int
    };
    let boost = 2 * SCALE - slow;
    clamp_spec(round_div((-omega) * boost * torque, SCALE * SCALE), -torque, torque)
}

/// The torque the tug's keys ask for about the viewing axis: one step per
/// rotation key, or the counter-torque while the damping key is held; then
/// limited to twice the configured torque.
pub open spec fn tug_torque(input: ControlInput, omega: int, torque: int) -> int {
    let asked = if input.damping {
        counter_torque(omega, torque)
    } else {
        axis(input.roll_left, input.roll_right, torque)
    };
    clamp_spec(asked, -2 * torque, 2 * torque)
}

/// `s` times the pull of a pair of opposed keys.
fn pull(plus: bool, minus: bool, s: i64) -> (r: i64)
    requires
        0 <= s,
    ensures
        r == axis(plus, minus, s as int),
{
    let mut r: i64 = 0;
    if plus {
        r = r + s;
    }
    if minus {
        r = r - s;
    }
    r
}

/// The new angular damping coefficient of a body that damps passively.
pub fn angular_damping(input: &ControlInput, current: i64) -> (r: i64)
    ensures
        r == input.damping_after(current as int),
{
    if input.damping {
        ACTIVE_DAMPING
    } else if input.damping_released {
        0
    } else {
        current
    }
}

/// The local vector `local` turned into the world frame by `orientation`
/// and limited to length `max`.
fn emit(orientation: Quat, local: Vec3, max: i64) -> (r: Vec3)
    requires
        orientation.wf(),
        0 <= max,
        local@.within(ROTATE_LIMIT as int),
    ensures
        r@ == orientation@.rotated(local@).clamped(max as int),
        r@.norm_sq() <= max * max,
        local@ == V3::zero() ==> r@ == V3::zero(),
{
    orientation.rotate(local).clamp_length_max(max)
}

/// The force the ship's keys ask for.
fn ship_force(input: &ControlInput, strength: i64) -> (r: Vec3)
    requires
        0 <= strength <= ROTATE_LIMIT,
    ensures
        r@ == input.ship_force(strength as int),
        r@.within(ROTATE_LIMIT as int),
        input.idle() ==> r@ == V3::zero(),
{
    Vec3 {
        x: pull(input.right, input.left, strength),
        y: pull(input.up, input.down, strength),
        z: pull(input.back, input.forward, strength),
    }
}

/// The torque the ship's keys ask for.
fn ship_torque(input: &ControlInput, strength: i64) -> (r: Vec3)
    requires
        0 <= strength <= ROTATE_LIMIT,
    ensures
        r@ == input.ship_torque(strength as int),
        r@.within(ROTATE_LIMIT as int),
        input.idle() ==> r@ == V3::zero(),
{
    Vec3 {
        x: pull(input.pitch_down, input.pitch_up, strength),
        y: pull(input.yaw_left, input.yaw_right, strength),
        z: pull(input.roll_left, input.roll_right, strength),
    }
}

/// The force the tug's keys ask for.
fn tug_force(input: &ControlInput, strength: i64) -> (r: Vec3)
    requires
        0 <= strength <= ROTATE_LIMIT,
    ensures
        r@ == input.tug_force(strength as int),
        r@.within(ROTATE_LIMIT as int),
        input.idle() ==> r@ == V3::zero(),
{
    Vec3 {
        x: pull(input.right, input.left, strength),
        y: pull(input.forward, input.back, strength),
        z: 0,
    }
}

/// One tick of the ship's controller.
///
/// Sums the held keys into a force and a torque along the ship's own axes,
/// turns both into the world frame by the ship's orientation, and limits each
/// to the configured strength. The ship damps passively: the new angular
/// damping coefficient is part of the output. Without a ship there is nothing
/// to control, and nothing comes back.
pub fn update_controls(
    ship: Option<&RigidBodyState>,
    angular_damping: i64,
    input: &ControlInput,
    profile: &ThrustProfile,
) -> (r: Option<ControlOutput>)
    requires
        profile.wf(),
        ship.is_some() ==> ship.unwrap().orientation.wf(),
    ensures
        r.is_some() <==> ship.is_some(),
        r.is_some() ==> {
            let q = ship.unwrap().orientation@;
            let out = r.unwrap();
            &&& out.impulse.linear@ == q.rotated(input.ship_force(profile.thrust as int)).clamped(
                profile.thrust as int,
            )
            &&& out.impulse.angular@ == q.rotated(
                input.ship_torque(profile.torque as int),
            ).clamped(profile.torque as int)
            &&& out.angular_damping == input.damping_after(angular_damping as int)
            &&& out.impulse.linear@.norm_sq() <= profile.thrust * profile.thrust
            &&& out.impulse.angular@.norm_sq() <= profile.torque * profile.torque
            &&& input.ship_force(profile.thrust as int) == V3::zero() ==> out.impulse.linear@
                == V3::zero()
            &&& input.ship_torque(profile.torque as int) == V3::zero() ==> out.impulse.angular@
                == V3::zero()
            &&& input.idle() ==> out.impulse.linear@ == V3::zero() && out.impulse.angular@
                == V3::zero() && out.angular_damping == angular_damping
        },
{
    match ship {
        None => None,
        Some(body) => {
            let force = ship_force(input, profile.thrust);
            let torque = ship_torque(input, profile.torque);
            let linear = emit(body.orientation, force, profile.thrust);
            let angular = emit(body.orientation, torque, profile.torque);
            Some(
                ControlOutput {
                    impulse: ImpulseCommand { linear, angular },
                    angular_damping: self::angular_damping(input, angular_damping),
                },
            )
        },
    }
}

/// `tau` does not push the way `omega` turns.
pub open spec fn opposes(tau: int, omega: int) -> bool {
    &&& omega > 0 ==> tau <= 0
    &&& omega < 0 ==> tau >= 0
    &&& omega == 0 ==> tau == 0
}

/// The counter-torque opposes the spin, never exceeds the configured torque,
/// and is at full strength from a spin of one unit on.
pub proof fn lemma_counter_torque(omega: int, torque: int)
    requires
        0 <= torque,
    ensures
        -torque <= counter_torque(omega, torque) <= torque,
        opposes(counter_torque(omega, torque), omega),
        omega >= SCALE ==> counter_torque(omega, torque) == -torque,
        omega <= -SCALE ==> counter_torque(omega, torque) == torque,
{
    let s = SCALE as int;
    let slow = if magnitude(omega) < s {
        magnitude(omega)
    } else {
        s
    };
    let boost = 2 * s - slow;
    let n = (-omega) * boost * torque;
    let ss = s * s;
    assert(s <= boost <= 2 * s);
    assert(omega > 0 ==> n <= 0) by (nonlinear_arith)
        requires
            n == (-omega) * boost * torque,
            0 < boost,
            0 <= torque,
    ;
    assert(omega < 0 ==> n >= 0) by (nonlinear_arith)
        requires
            n == (-omega) * boost * torque,
            0 < boost,
            0 <= torque,
    ;
    assert(omega == 0 ==> n == 0) by (nonlinear_arith)
        requires
            n == (-omega) * boost * torque,
    ;
    lemma_round_div_reaches(n, ss, 0);
    lemma_round_div_reaches(n, ss, torque);
    assert(omega >= s ==> n <= -(torque * ss)) by (nonlinear_arith)
        requires
            n == (-omega) * boost * torque,
            omega >= s ==> boost == s,
            ss == s * s,
            0 < s,
            0 <= torque,
    ;
    assert(omega <= -s ==> n >= torque * ss) by (nonlinear_arith)
        requires
            n == (-omega) * boost * torque,
            omega <= -s ==> boost == s,
            ss == s * s,
            0 < s,
            0 <= torque,
    ;
}

/// The torque with which the tug counters a spin of `omega`.
pub fn damping_torque(omega: i64, torque: i64) -> (r: i64)
    requires
        0 <= torque <= ROTATE_LIMIT,
    ensures
        r == counter_torque(omega as int, torque as int),
        -torque <= r <= torque,
        opposes(r as int, omega as int),
{
    proof {
        lemma_counter_torque(omega as int, torque as int);
    }
    if omega >= SCALE {
        -torque
    } else if omega <= -SCALE {
        torque
    } else {
        let w: i128 = omega as i128;
        let slow: i128 = if w < 0 {
            -w
        } else {
            w
        };
        let boost: i128 = 2 * (SCALE as i128) - slow;
        let t: i128 = torque as i128;
        proof {
            lemma_product_bound(-w as int, boost as int, SCALE as int, 2 * SCALE);
            lemma_product_bound(
                (-w) * boost,
                t as int,
                SCALE * (2 * SCALE),
                ROTATE_LIMIT as int,
            );
        }
        let raw: i128 = div_round((-w) * boost * t, (SCALE as i128) * (SCALE as i128));
        if raw < -t {
            -torque
        } else if raw > t {
            torque
        } else {
            raw as i64
        }
    }
}

/// One tick of the tug's controller.
///
/// Sums the held keys into a force along the tug's own axes, turns it into
/// the world frame by the tug's orientation, keeps its part in the plane and
/// limits that to the configured thrust. The tug damps actively: while the
/// damping key is held, the torque about the viewing axis is the
/// counter-torque against the spin about that axis, in place of what the
/// rotation keys ask for. The torque is limited to twice the configured
/// torque.
pub fn apply_force_to_player(
    player: &RigidBodyState,
    input: &ControlInput,
    profile: &ThrustProfile,
) -> (r: ImpulseCommand)
    requires
        profile.wf(),
        player.orientation.wf(),
    ensures
        r.linear@ == player.orientation@.rotated(
            input.tug_force(profile.thrust as int),
        ).truncate().clamped(profile.thrust as int).extend(0),
        r.angular@ == (V3 {
            x: 0,
            y: 0,
            z: tug_torque(*input, player.angular_velocity.z as int, profile.torque as int),
        }),
        r.linear@.norm_sq() <= profile.thrust * profile.thrust,
        -2 * profile.torque <= r.angular.z <= 2 * profile.torque,
        input.damping ==> opposes(r.angular.z as int, player.angular_velocity.z as int),
        input.tug_force(profile.thrust as int) == V3::zero() ==> r.linear@ == V3::zero(),
        input.idle() ==> r.linear@ == V3::zero() && r.angular@ == V3::zero(),
{
    let s: i64 = profile.thrust;
    let t: i64 = profile.torque;
    let force = tug_force(input, s);
    let asked: i64 = if input.damping {
        damping_torque(player.angular_velocity.z, t)
    } else {
        pull(input.roll_left, input.roll_right, t)
    };
    let linear = player.orientation.rotate(force).truncate().clamp_length_max(s);
    let torque: i64 = if asked < -2 * t {
        -2 * t
    } else if asked > 2 * t {
        2 * t
    } else {
        asked
    };
    ImpulseCommand { linear: linear.extend(0), angular: Vec3 { x: 0, y: 0, z: torque } }
}

/// Which controller flies a body, and with it how the body damps its spin.
#[derive(Clone, Copy, Debug, PartialEq, Eq, Structural)]
pub enum ControlPolicy {
    /// The ship: six axes in space, passive damping.
    Ship,
    /// The tug: three axes in the plane, active damping by counter-torque.
    Tug,
}

/// One tick of the controller that `policy` names.
///
/// The ship is flown by [`update_controls`]. The tug is flown by
/// [`apply_force_to_player`], which leaves the angular damping coefficient as
/// it is. Without a body nothing comes back.
pub fn control(
    policy: ControlPolicy,
    body: Option<&RigidBodyState>,
    angular_damping: i64,
    input: &ControlInput,
    profile: &ThrustProfile,
) -> (r: Option<ControlOutput>)
    requires
        profile.wf(),
        body.is_some() ==> body.unwrap().orientation.wf(),
    ensures
        r.is_some() <==> body.is_some(),
        r.is_some() && policy == ControlPolicy::Ship ==> {
            let q = body.unwrap().orientation@;
            let out = r.unwrap();
            &&& out.impulse.linear@ == q.rotated(input.ship_force(profile.thrust as int)).clamped(
                profile.thrust as int,
            )
            &&& out.impulse.angular@ == q.rotated(
                input.ship_torque(profile.torque as int),
            ).clamped(profile.torque as int)
            &&& out.angular_damping == input.damping_after(angular_damping as int)
        },
        r.is_some() && policy == ControlPolicy::Tug ==> {
            let q = body.unwrap().orientation@;
            let out = r.unwrap();
            &&& out.impulse.linear@ == q.rotated(
                input.tug_force(profile.thrust as int),
            ).truncate().clamped(profile.thrust as int).extend(0)
            &&& out.impulse.angular@ == (V3 {
                x: 0,
                y: 0,
                z: tug_torque(
                    *input,
                    body.unwrap().angular_velocity.z as int,
                    profile.torque as int,
                ),
            })
            &&& out.angular_damping == angular_damping
        },
        r.is_some() ==> r.unwrap().impulse.linear@.norm_sq() <= profile.thrust * profile.thrust,
        r.is_some() && input.idle() ==> r.unwrap().impulse.linear@ == V3::zero()
            && r.unwrap().impulse.angular@ == V3::zero(),
{
    match policy {
        ControlPolicy::Ship => update_controls(body, angular_damping, input, profile),
        ControlPolicy::Tug => match body {
            None => None,
            Some(tug) => Some(
                ControlOutput { impulse: apply_force_to_player(tug, input, profile), angular_damping },
            ),
        },
    }
}

/// Whatever the keys ask for and however the body is turned, the emitted
/// impulse is no longer than its limit.
pub proof fn law_impulse_within_limit(q: Q4, local: V3, max: int)
    requires
        0 <= max,
    ensures
        q.rotated(local).clamped(max).norm_sq() <= max * max,
        q.rotated(local).truncate().clamped(max).norm_sq() <= max * max,
{
    lemma_clamped_length(q.rotated(local), max);
    let planar = q.rotated(local).truncate().extend(0);
    lemma_clamped_length(planar, max);
    assert(planar.clamped(max).z == 0);
}

/// An emitted impulse that its limit left alone, turned back into the
/// body's own frame, is what the keys asked for, within one step on every
/// axis.
pub proof fn law_impulse_round_trip(q: Q4, local: V3, max: int)
    requires
        0 < q.norm_sq(),
        q.rotated(local).norm_sq() <= max * max,
    ensures
        q.rotated(local).clamped(max) == q.rotated(local),
        within_one_step(q.conjugate().rotated(q.rotated(local).clamped(max)), local),
{
    law_rotation_round_trip(q, local);
}

/// The same for the tug, whose impulse is kept in the plane: where the tug
/// is turned about the viewing axis only, nothing is lost by that.
pub proof fn law_tug_impulse_round_trip(q: Q4, local: V3, max: int)
    requires
        q.x == 0,
        q.y == 0,
        0 < q.norm_sq(),
        local.z == 0,
        q.rotated(local).norm_sq() <= max * max,
    ensures
        q.rotated(local).truncate().clamped(max).extend(0) == q.rotated(local),
        within_one_step(
            q.conjugate().rotated(q.rotated(local).truncate().clamped(max).extend(0)),
            local,
        ),
{
    law_planar_rotation(q, local);
    law_rotation_round_trip(q, local);
    let turned = q.rotated(local);
    assert(turned.truncate().extend(0) == turned);
}

} // verus!
