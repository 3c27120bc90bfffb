//! The state of a rigid body, as the physics integrator exposes it each tick.
use crate::rotation::{Quat, QUAT_ONE};
use crate::vector::{Vec3, V3};
use vstd::prelude::*;

verus! {

/// The largest coordinate of a position or a velocity.
pub const COORD_LIMIT: i64 = 0x100_0000_0000_0000;

/// Pose and velocities of one rigid body in the world frame.
#[derive(Clone, Copy, Debug, PartialEq, Eq, Structural)]
pub struct RigidBodyState {
    pub position: Vec3,
    pub orientation: Quat,
    pub linear_velocity: Vec3,
    pub angular_velocity: Vec3,
}

impl RigidBodyState {
    /// The orientation is a rotation, and position and linear velocity stay
    /// within [`COORD_LIMIT`].
    pub open spec fn wf(self) -> bool {
        &&& self.orientation.wf()
        &&& self.position@.within(COORD_LIMIT as int)
        &&& self.linear_velocity@.within(COORD_LIMIT as int)
    }

    /// A body at rest at `position`, turned by `orientation`.
    pub fn at_rest(position: Vec3, orientation: Quat) -> (r: RigidBodyState)
        ensures
            r.position == position,
            r.orientation == orientation,
            r.linear_velocity@ == V3::zero(),
            r.angular_velocity@ == V3::zero(),
    {
        RigidBodyState {
            position,
            orientation,
            linear_velocity: Vec3::zero(),
            angular_velocity: Vec3::zero(),
        }
    }

    /// Whether the state meets [`RigidBodyState::wf`].
    pub fn is_valid(&self) -> (ok: bool)
        ensures
            ok == self.wf(),
    {
        let q = self.orientation;
        let one: i32 = QUAT_ONE;
        let quat_fits = -one <= q.x && q.x <= one && -one <= q.y && q.y <= one && -one <= q.z && q.z
            <= one && -one <= q.w && q.w <= one;
        let quat_set = q.x != 0 || q.y != 0 || q.z != 0 || q.w != 0;
        quat_fits && quat_set && fits(self.position) && fits(self.linear_velocity)
    }
}

/// Whether every coordinate of `v` stays within [`COORD_LIMIT`].
fn fits(v: Vec3) -> (ok: bool)
    ensures
        ok == v@.within(COORD_LIMIT as int),
{
    -COORD_LIMIT <= v.x && v.x <= COORD_LIMIT && -COORD_LIMIT <= v.y && v.y <= COORD_LIMIT
        && -COORD_LIMIT <= v.z && v.z <= COORD_LIMIT
}

} // verus!
