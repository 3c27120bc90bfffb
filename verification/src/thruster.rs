//! Where the thrusters of the tug sit on its hull.
use crate::fixed::trunc_div;
use crate::vector::{Vec2, V2};
use vstd::prelude::*;

verus! {

/// The largest side of a hull or of a thruster.
pub const SIZE_LIMIT: i64 = 0x1000_0000_0000_0000;

/// The side of the hull that a thruster is mounted on.
#[derive(Clone, Copy, Debug, PartialEq, Eq, Structural)]
pub enum RCSThrusterMountPosition {
    Left,
    Right,
    Top,
    Bottom,
}

/// The axis along which a thruster lies.
#[derive(Clone, Copy, Debug, PartialEq, Eq, Structural)]
pub enum RCSThrusterMountOrientation {
    Horizontal,
    Vertical,
}

/// Where along its side a thruster sits.
#[derive(Clone, Copy, Debug, PartialEq, Eq, Structural)]
pub enum RCSThrusterMountAlignment {
    Start,
    Center,
    End,
}

/// The mount of a thruster on the hull.
#[derive(Clone, Copy, Debug, PartialEq, Eq, Structural)]
pub struct RCSThrusterMount {
    pub position: RCSThrusterMountPosition,
    pub orientation: RCSThrusterMountOrientation,
    pub alignment: RCSThrusterMountAlignment,
}

/// The two ends of the joint that holds a thruster: a point in the frame of
/// the hull and a point in the frame of the thruster.
#[derive(Clone, Copy, Debug, PartialEq, Eq, Structural)]
pub struct MountAnchors {
    pub ship: Vec2,
    pub thruster: Vec2,
}

/// `value` on the side of zero that `sign` names, or zero where `sign` is.
pub open spec fn signed(sign: int, value: int) -> int {
    if sign > 0 {
        value
    } else if sign < 0 {
        -value
    } else {
        0
    }
}

/// Half of a length, rounded toward zero.
pub open spec fn half(c: int) -> int {
    trunc_div(c, 2)
}

impl RCSThrusterMountPosition {
    /// The sign of the side: left and bottom lie below zero, right and top
    /// above.
    pub open spec fn sign(self) -> int {
        match self {
            RCSThrusterMountPosition::Left | RCSThrusterMountPosition::Bottom => -1,
            RCSThrusterMountPosition::Right | RCSThrusterMountPosition::Top => 1,
        }
    }

    /// The side runs from top to bottom.
    pub open spec fn upright(self) -> bool {
        self == RCSThrusterMountPosition::Left || self == RCSThrusterMountPosition::Right
    }

    /// The opposite side.
    pub open spec fn mirrored(self) -> RCSThrusterMountPosition {
        match self {
            RCSThrusterMountPosition::Left => RCSThrusterMountPosition::Right,
            RCSThrusterMountPosition::Right => RCSThrusterMountPosition::Left,
            RCSThrusterMountPosition::Top => RCSThrusterMountPosition::Bottom,
            RCSThrusterMountPosition::Bottom => RCSThrusterMountPosition::Top,
        }
    }
}

impl RCSThrusterMountAlignment {
    /// The other end of the side.
    pub open spec fn mirrored(self) -> RCSThrusterMountAlignment {
        match self {
            RCSThrusterMountAlignment::Start => RCSThrusterMountAlignment::End,
            RCSThrusterMountAlignment::Center => RCSThrusterMountAlignment::Center,
            RCSThrusterMountAlignment::End => RCSThrusterMountAlignment::Start,
        }
    }
}

impl RCSThrusterMount {
    /// The sign of the end along the side: an upright side starts at the
    /// top, a level side starts at the left, and the center is at zero.
    pub open spec fn end_sign(self) -> int {
        match self.alignment {
            RCSThrusterMountAlignment::Center => 0,
            RCSThrusterMountAlignment::Start => if self.position.upright() {
                1
            } else {
                -1
            },
            RCSThrusterMountAlignment::End => if self.position.upright() {
                -1
            } else {
                1
            },
        }
    }

    /// The thruster lies across its side, so it reaches over the end of the
    /// side.
    pub open spec fn across(self) -> bool {
        self.orientation == RCSThrusterMountOrientation::Vertical
            && self.alignment != RCSThrusterMountAlignment::Center
    }

    /// The point of the hull that the thruster is joined to.
    ///
    /// On an upright side the point lies on the side, moved in by the width
    /// of the thruster where it lies across, and half the height of the hull
    /// up or down, less half the height of the thruster where it lies along
    /// the side and more by it where it lies across. On a level side it is
    /// the same with the axes changed, but that a thruster across the side
    /// is moved in by half its height only and is not moved along the side.
    pub open spec fn ship_anchor(self, hull: V2, thruster: V2) -> V2 {
        let side = self.position.sign();
        let end = self.end_sign();
        if self.position.upright() {
            V2 {
                x: signed(side, half(hull.x) - (if self.across() {
                    thruster.x
                } else {
                    0
                })),
                y: signed(end, half(hull.y) + (if self.orientation
                    == RCSThrusterMountOrientation::Vertical {
                    half(thruster.y)
                } else {
                    -half(thruster.y)
                })),
            }
        } else {
            V2 {
                x: signed(end, half(hull.x) - (if self.orientation
                    == RCSThrusterMountOrientation::Horizontal {
                    half(thruster.x)
                } else {
                    0
                })),
                y: signed(side, half(hull.y) - (if self.across() {
                    half(thruster.y)
                } else {
                    0
                })),
            }
        }
    }

    /// The point of the thruster that is joined to the hull: the middle of
    /// the edge that faces the hull on a level side, and of the edge that
    /// faces away from the middle of the hull on an upright side.
    pub open spec fn thruster_anchor(self, thruster: V2) -> V2 {
        if self.position.upright() {
            V2 { x: signed(-self.position.sign(), half(thruster.x)), y: 0 }
        } else {
            V2 { x: 0, y: signed(self.position.sign(), half(thruster.y)) }
        }
    }

    /// The same mount on the opposite side of the hull.
    pub open spec fn mirrored_side(self) -> RCSThrusterMount {
        RCSThrusterMount {
            position: self.position.mirrored(),
            orientation: self.orientation,
            alignment: self.alignment,
        }
    }

    /// The same mount at the other end of its side.
    pub open spec fn mirrored_end(self) -> RCSThrusterMount {
        RCSThrusterMount {
            position: self.position,
            orientation: self.orientation,
            alignment: self.alignment.mirrored(),
        }
    }
}

/// The name of a side.
pub open spec fn position_name(position: RCSThrusterMountPosition) -> Seq<char> {
    match position {
        RCSThrusterMountPosition::Left => "Left"@,
        RCSThrusterMountPosition::Right => "Right"@,
        RCSThrusterMountPosition::Top => "Top"@,
        RCSThrusterMountPosition::Bottom => "Bottom"@,
    }
}

/// The name of an orientation.
pub open spec fn orientation_name(orientation: RCSThrusterMountOrientation) -> Seq<char> {
    match orientation {
        RCSThrusterMountOrientation::Horizontal => "Horizontal"@,
        RCSThrusterMountOrientation::Vertical => "Vertical"@,
    }
}

/// The name of an alignment.
pub open spec fn alignment_name(alignment: RCSThrusterMountAlignment) -> Seq<char> {
    match alignment {
        RCSThrusterMountAlignment::Start => "Start"@,
        RCSThrusterMountAlignment::Center => "Center"@,
        RCSThrusterMountAlignment::End => "End"@,
    }
}

/// The name of the thruster at a mount: its alignment, its orientation and
/// its side, joined by underscores.
pub open spec fn mount_name(mount: RCSThrusterMount) -> Seq<char> {
    alignment_name(mount.alignment) + "_"@ + orientation_name(mount.orientation) + "_"@
        + position_name(mount.position)
}

/// The name of the thruster at `mount`.
pub fn thruster_name(mount: &RCSThrusterMount) -> (name: String)
    ensures
        name@ == mount_name(*mount),
{
    let mut out = String::new();
    out.append(
        match mount.alignment {
            RCSThrusterMountAlignment::Start => "Start",
            RCSThrusterMountAlignment::Center => "Center",
            RCSThrusterMountAlignment::End => "End",
        },
    );
    out.append("_");
    out.append(
        match mount.orientation {
            RCSThrusterMountOrientation::Horizontal => "Horizontal",
            RCSThrusterMountOrientation::Vertical => "Vertical",
        },
    );
    out.append("_");
    out.append(
        match mount.position {
            RCSThrusterMountPosition::Left => "Left",
            RCSThrusterMountPosition::Right => "Right",
            RCSThrusterMountPosition::Top => "Top",
            RCSThrusterMountPosition::Bottom => "Bottom",
        },
    );
    out
}

/// The two ends of the joint that holds a thruster of size `thruster` at
/// `mount` on a hull of size `hull`.
pub fn mount_anchors(hull: Vec2, thruster: Vec2, mount: RCSThrusterMount) -> (r: MountAnchors)
    requires
        0 <= hull.x <= SIZE_LIMIT,
        0 <= hull.y <= SIZE_LIMIT,
        0 <= thruster.x <= SIZE_LIMIT,
        0 <= thruster.y <= SIZE_LIMIT,
    ensures
        r.ship@ == mount.ship_anchor(hull@, thruster@),
        r.thruster@ == mount.thruster_anchor(thruster@),
{
    let px: i64 = hull.x / 2;
    let py: i64 = hull.y / 2;
    let tx: i64 = thruster.x / 2;
    let ty: i64 = thruster.y / 2;
    let thruster_mount = match mount.position {
        RCSThrusterMountPosition::Left => Vec2 { x: tx, y: 0 },
        RCSThrusterMountPosition::Right => Vec2 { x: -tx, y: 0 },
        RCSThrusterMountPosition::Top => Vec2 { x: 0, y: ty },
        RCSThrusterMountPosition::Bottom => Vec2 { x: 0, y: -ty },
    };
    let ship_mount = match mount.position {
        RCSThrusterMountPosition::Left => match mount.alignment {
            RCSThrusterMountAlignment::Center => Vec2 { x: -px, y: 0 },
            RCSThrusterMountAlignment::Start => match mount.orientation {
                RCSThrusterMountOrientation::Horizontal => Vec2 { x: -px, y: py - ty },
                RCSThrusterMountOrientation::Vertical => Vec2 {
                    x: -px + thruster.x,
                    y: py + ty,
                },
            },
            RCSThrusterMountAlignment::End => match mount.orientation {
                RCSThrusterMountOrientation::Horizontal => Vec2 { x: -px, y: -py + ty },
                RCSThrusterMountOrientation::Vertical => Vec2 {
                    x: -px + thruster.x,
                    y: -py - ty,
                },
            },
        },
        RCSThrusterMountPosition::Right => match mount.alignment {
            RCSThrusterMountAlignment::Center => Vec2 { x: px, y: 0 },
            RCSThrusterMountAlignment::Start => match mount.orientation {
                RCSThrusterMountOrientation::Horizontal => Vec2 { x: px, y: py - ty },
                RCSThrusterMountOrientation::Vertical => Vec2 { x: px - thruster.x, y: py + ty },
            },
            RCSThrusterMountAlignment::End => match mount.orientation {
                RCSThrusterMountOrientation::Horizontal => Vec2 { x: px, y: -py + ty },
                RCSThrusterMountOrientation::Vertical => Vec2 {
                    x: px - thruster.x,
                    y: -py - ty,
                },
            },
        },
        RCSThrusterMountPosition::Top => match mount.alignment {
            RCSThrusterMountAlignment::Center => Vec2 { x: 0, y: py },
            RCSThrusterMountAlignment::Start => match mount.orientation {
                RCSThrusterMountOrientation::Horizontal => Vec2 { x: -px + tx, y: py },
                RCSThrusterMountOrientation::Vertical => Vec2 { x: -px, y: py - ty },
            },
            RCSThrusterMountAlignment::End => match mount.orientation {
                RCSThrusterMountOrientation::Horizontal => Vec2 { x: px - tx, y: py },
                RCSThrusterMountOrientation::Vertical => Vec2 { x: px, y: py - ty },
            },
        },
        RCSThrusterMountPosition::Bottom => match mount.alignment {
            RCSThrusterMountAlignment::Center => Vec2 { x: 0, y: -py },
            RCSThrusterMountAlignment::Start => match mount.orientation {
                RCSThrusterMountOrientation::Horizontal => Vec2 { x: -px + tx, y: -py },
                RCSThrusterMountOrientation::Vertical => Vec2 { x: -px, y: -py + ty },
            },
            RCSThrusterMountAlignment::End => match mount.orientation {
                RCSThrusterMountOrientation::Horizontal => Vec2 { x: px - tx, y: -py },
                RCSThrusterMountOrientation::Vertical => Vec2 { x: px, y: -py + ty },
            },
        },
    };
    MountAnchors { ship: ship_mount, thruster: thruster_mount }
}

/// Where a thruster is placed in the frame of the hull, so that the two
/// ends of its joint meet.
pub fn thruster_offset(anchors: &MountAnchors) -> (r: Vec2)
    requires
        anchors.ship@.extend(0).within(i64::MAX / 2),
        anchors.thruster@.extend(0).within(i64::MAX / 2),
    ensures
        r.x == anchors.ship.x - anchors.thruster.x,
        r.y == anchors.ship.y - anchors.thruster.y,
{
    Vec2 { x: anchors.ship.x - anchors.thruster.x, y: anchors.ship.y - anchors.thruster.y }
}

/// A mount on the opposite side of the hull is the mirror image across the
/// middle of the hull.
pub proof fn law_mirrored_side(mount: RCSThrusterMount, hull: V2, thruster: V2)
    ensures
        mount.position.upright() ==> {
            &&& mount.mirrored_side().ship_anchor(hull, thruster).x == -mount.ship_anchor(
                hull,
                thruster,
            ).x
            &&& mount.mirrored_side().ship_anchor(hull, thruster).y == mount.ship_anchor(
                hull,
                thruster,
            ).y
            &&& mount.mirrored_side().thruster_anchor(thruster).x == -mount.thruster_anchor(
                thruster,
            ).x
        },
        !mount.position.upright() ==> {
            &&& mount.mirrored_side().ship_anchor(hull, thruster).x == mount.ship_anchor(
                hull,
                thruster,
            ).x
            &&& mount.mirrored_side().ship_anchor(hull, thruster).y == -mount.ship_anchor(
                hull,
                thruster,
            ).y
            &&& mount.mirrored_side().thruster_anchor(thruster).y == -mount.thruster_anchor(
                thruster,
            ).y
        },
{
}

/// A mount at the other end of its side is the mirror image along the side,
/// and a mount at the center lies on the axis.
pub proof fn law_mirrored_end(mount: RCSThrusterMount, hull: V2, thruster: V2)
    ensures
        mount.mirrored_end().thruster_anchor(thruster) == mount.thruster_anchor(thruster),
        mount.position.upright() ==> {
            &&& mount.mirrored_end().ship_anchor(hull, thruster).x == mount.ship_anchor(
                hull,
                thruster,
            ).x
            &&& mount.mirrored_end().ship_anchor(hull, thruster).y == -mount.ship_anchor(
                hull,
                thruster,
            ).y
        },
        !mount.position.upright() ==> {
            &&& mount.mirrored_end().ship_anchor(hull, thruster).x == -mount.ship_anchor(
                hull,
                thruster,
            ).x
            &&& mount.mirrored_end().ship_anchor(hull, thruster).y == mount.ship_anchor(
                hull,
                thruster,
            ).y
        },
{
}

} // verus!
