//! The orbit camera rig: the angles of the camera around its focal point,
//! and the focal point that follows the swarm.
//!
//! Angles are whole numbers of millionths of a radian. The pitch is kept as
//! a fraction of the configured angle range, in millionths, and never leaves
//! the range: every contribution to it is clamped on its own.

use crate::geometry::{floor_div, Vector3, UNIT};
use crate::influence::PlayerInfluenceRadius;
use vstd::prelude::*;

verus! {

/// The fixed-point representation of one radian, and of the whole of the
/// pitch range.
pub const MICRO: i32 = 1_000_000;

/// Half a turn, in millionths of a radian.
pub const HALF_TURN: i64 = 3_141_593;

/// How fast the focal point closes in on the influence point: the share of
/// the remaining distance that it covers per second.
pub const FOCAL_POINT_RATE: i32 = 10;

/// `value` brought into the pitch range.
pub open spec fn clamp_unit(value: int) -> int {
    if value > MICRO {
        MICRO as int
    } else if value < 0 {
        0
    } else {
        value
    }
}

/// The normalized pitch after the contributions `deltas` have been added to
/// `start` one after the other, each followed by a clamp.
pub open spec fn pitch_after(start: int, deltas: Seq<i32>) -> int
    decreases deltas.len(),
{
    if deltas.len() == 0 {
        start
    } else {
        clamp_unit(pitch_after(start, deltas.drop_last()) + deltas.last())
    }
}

/// What the input sources contribute to the camera angles in one tick, in
/// millionths: the continuous axis and the pointer motion, each already
/// scaled by its sensitivity and by the tick duration where that applies.
/// The pitch contributions are added, the yaw contributions subtracted.
#[derive(Clone, Copy, Debug, PartialEq, Eq, Structural)]
pub struct LookInput {
    pub axis_yaw: i32,
    pub axis_pitch: i32,
    pub pointer_yaw: i32,
    pub pointer_pitch: i32,
}

/// The angles of a camera that orbits a focal point.
#[derive(Clone, Copy, Debug)]
pub struct OrbitCamera {
    /// The yaw around the vertical axis, in millionths of a radian.
    pub rotation: i64,
    /// Where in the configured angle range the pitch lies, in millionths.
    view_angle_normalized: i32,
}

impl OrbitCamera {
    /// Where in the configured angle range the pitch lies, in millionths.
    pub closed spec fn spec_view_angle_normalized(&self) -> i32 {
        self.view_angle_normalized
    }

    /// The yaw around the vertical axis, in millionths of a radian.
    pub closed spec fn spec_yaw(&self) -> i64 {
        self.rotation
    }

    /// The camera with yaw `rotation` and normalized pitch `pitch`.
    pub closed spec fn of(rotation: i64, pitch: i32) -> OrbitCamera {
        OrbitCamera { rotation, view_angle_normalized: pitch }
    }

    /// The pitch lies in its range.
    pub open spec fn wf(&self) -> bool {
        0 <= self.spec_view_angle_normalized() <= MICRO
    }

    /// The camera after one tick of input: each pitch contribution is added
    /// and clamped on its own, the axis before the pointer; the yaw takes
    /// both contributions and is not clamped.
    pub open spec fn after_input(self, look: LookInput) -> OrbitCamera {
        OrbitCamera::of(
            (self.spec_yaw() - look.axis_yaw - look.pointer_yaw) as i64,
            clamp_unit(
                clamp_unit(self.spec_view_angle_normalized() + look.axis_pitch)
                    + look.pointer_pitch,
            ) as i32,
        )
    }

    /// A camera is its two angles.
    pub proof fn lemma_of_parts(self)
        ensures
            self == OrbitCamera::of(self.spec_yaw(), self.spec_view_angle_normalized()),
            forall|rotation: i64, pitch: i32|
                #![trigger OrbitCamera::of(rotation, pitch)]
                OrbitCamera::of(rotation, pitch).spec_yaw() == rotation && OrbitCamera::of(
                    rotation,
                    pitch,
                ).spec_view_angle_normalized() == pitch,
    {
    }

    /// The yaw around the vertical axis, in millionths of a radian.
    #[verifier::when_used_as_spec(spec_yaw)]
    pub fn yaw(&self) -> (yaw: i64)
        ensures
            yaw == self.spec_yaw(),
    {
        self.rotation
    }

    /// The camera with yaw `rotation` and the normalized pitch that is
    /// nearest to `pitch` in the range.
    pub fn new(rotation: i64, pitch: i32) -> (camera: OrbitCamera)
        ensures
            camera == OrbitCamera::of(rotation, clamp_unit(pitch as int) as i32),
            camera.yaw() == rotation,
            camera.view_angle_normalized() == clamp_unit(pitch as int),
            camera.wf(),
    {
        let pitch: i32 = if pitch > MICRO {
            MICRO
        } else if pitch < 0 {
            0
        } else {
            pitch
        };
        OrbitCamera { rotation, view_angle_normalized: pitch }
    }

    /// Where in the configured angle range the pitch lies, in millionths.
    #[verifier::when_used_as_spec(spec_view_angle_normalized)]
    pub fn view_angle_normalized(&self) -> (pitch: i32)
        ensures
            pitch == self.spec_view_angle_normalized(),
    {
        self.view_angle_normalized
    }

    /// Adds `angle` to the normalized pitch and clamps the sum to the range.
    pub fn add_view_angle_normalized(&mut self, angle: i32)
        ensures
            *final(self) == OrbitCamera::of(
                old(self).yaw(),
                clamp_unit(old(self).view_angle_normalized() + angle) as i32,
            ),
            final(self).yaw() == old(self).yaw(),
            final(self).view_angle_normalized() == clamp_unit(
                old(self).view_angle_normalized() + angle,
            ),
            final(self).wf(),
    {
        let sum: i64 = self.view_angle_normalized as i64 + angle as i64;
        if sum > MICRO as i64 {
            self.view_angle_normalized = MICRO;
        } else if sum < 0 {
            self.view_angle_normalized = 0;
        } else {
            self.view_angle_normalized = sum as i32;
        }
    }
}

impl Default for OrbitCamera {
    /// The camera of a fresh level: half a turn of yaw, and the pitch in the
    /// middle of its range.
    fn default() -> (camera: OrbitCamera)
        ensures
            camera == OrbitCamera::of(HALF_TURN, 500_000),
            camera.yaw() == HALF_TURN,
            camera.view_angle_normalized() == 500_000,
            camera.wf(),
    {
        OrbitCamera { rotation: HALF_TURN, view_angle_normalized: 500_000 }
    }
}

/// Applies one tick of input to the camera. The axis contribution to the
/// pitch is applied and clamped before the pointer contribution is, so that
/// neither source can bank slack beyond the range for the other.
pub fn orbit_camera_input(camera: &mut OrbitCamera, look: LookInput)
    requires
        i64::MIN <= old(camera).yaw() - look.axis_yaw - look.pointer_yaw <= i64::MAX,
    ensures
        *final(camera) == old(camera).after_input(look),
        final(camera).yaw() == old(camera).yaw() - look.axis_yaw - look.pointer_yaw,
        final(camera).view_angle_normalized() == clamp_unit(
            clamp_unit(old(camera).view_angle_normalized() + look.axis_pitch)
                + look.pointer_pitch,
        ),
        final(camera).wf(),
{
    camera.add_view_angle_normalized(look.axis_pitch);
    camera.add_view_angle_normalized(look.pointer_pitch);
    let yaw: i128 = camera.rotation as i128 - look.axis_yaw as i128 - look.pointer_yaw as i128;
    camera.rotation = yaw as i64;
}

/// A clamped pitch lies in the range, whatever was added.
pub proof fn lemma_pitch_stays_in_range(start: int, deltas: Seq<i32>)
    requires
        deltas.len() > 0,
    ensures
        0 <= pitch_after(start, deltas) <= MICRO,
{
}

/// Once a contribution has taken the pitch to the top of its range, further
/// contributions that are not negative leave it there, however many follow.
pub proof fn lemma_pitch_stays_at_top(start: int, deltas: Seq<i32>)
    requires
        deltas.len() > 0,
        start + deltas[0] >= MICRO,
        forall|i: int| 0 <= i < deltas.len() ==> deltas[i] >= 0,
    ensures
        pitch_after(start, deltas) == MICRO,
    decreases deltas.len(),
{
    if deltas.len() > 1 {
        let shorter = deltas.drop_last();
        assert(shorter[0] == deltas[0]);
        assert forall|i: int| 0 <= i < shorter.len() implies shorter[i] >= 0 by {
            assert(shorter[i] == deltas[i]);
        }
        lemma_pitch_stays_at_top(start, shorter);
        assert(deltas.last() == deltas[deltas.len() - 1]);
    } else {
        assert(deltas.drop_last().len() == 0);
        assert(pitch_after(start, deltas.drop_last()) == start);
        assert(deltas.last() == deltas[0]);
    }
}

/// One tick of input is its pitch contributions, axis first, each clamped.
pub proof fn lemma_input_is_two_contributions(camera: OrbitCamera, look: LookInput)
    ensures
        camera.after_input(look).view_angle_normalized() == pitch_after(
            camera.view_angle_normalized() as int,
            seq![look.axis_pitch, look.pointer_pitch],
        ),
{
    let both = seq![look.axis_pitch, look.pointer_pitch];
    let first = both.drop_last();
    assert(first.len() == 1);
    assert(first.drop_last().len() == 0);
    assert(first.last() == look.axis_pitch);
    assert(both.last() == look.pointer_pitch);
    assert(pitch_after(camera.view_angle_normalized() as int, first.drop_last())
        == camera.view_angle_normalized());
    assert(pitch_after(camera.view_angle_normalized() as int, first) == clamp_unit(
        camera.view_angle_normalized() + look.axis_pitch,
    ));
    camera.lemma_of_parts();
}

/// The point that the camera looks at. It follows the influence point.
#[derive(Clone, Copy, Debug, PartialEq, Eq, Structural)]
pub struct FocalPoint {
    pub position: Vector3,
}

/// Where a coordinate at `from` is after `delta_millis` milliseconds of
/// being drawn towards `to`: it covers the share of the remaining distance
/// that the rate and the duration give, rounded down to a whole thousandth.
pub open spec fn drawn(from: int, to: int, delta_millis: int) -> int {
    from + ((to - from) * (FOCAL_POINT_RATE * delta_millis)) / (UNIT as int)
}

/// Whether a point at `from` that is drawn towards `to` for `delta_millis`
/// milliseconds stays in the space that coordinates can name.
pub open spec fn spec_drawable(from: Vector3, to: Vector3, delta_millis: u32) -> bool {
    &&& i32::MIN <= drawn(from.x as int, to.x as int, delta_millis as int) <= i32::MAX
    &&& i32::MIN <= drawn(from.y as int, to.y as int, delta_millis as int) <= i32::MAX
    &&& i32::MIN <= drawn(from.z as int, to.z as int, delta_millis as int) <= i32::MAX
}

/// Whether the focal point, if it is to be drawn towards the influence point
/// for `delta_millis` milliseconds, stays in the space that coordinates can
/// name.
pub open spec fn can_follow(
    focal: Option<FocalPoint>,
    influence: Option<PlayerInfluenceRadius>,
    delta_millis: u32,
) -> bool {
    match (influence, focal) {
        (Some(point), Some(focus)) => spec_drawable(focus.position, point.position, delta_millis),
        _ => true,
    }
}

/// The focal point after one tick of `delta_millis` milliseconds. Without an
/// influence point nothing changes. Without a focal point one is made where
/// the influence point is; an existing one is drawn towards it and does not
/// snap.
pub open spec fn after_follow(
    focal: Option<FocalPoint>,
    influence: Option<PlayerInfluenceRadius>,
    delta_millis: u32,
) -> Option<FocalPoint> {
    match (influence, focal) {
        (None, _) => focal,
        (Some(point), None) => Some(FocalPoint { position: point.position }),
        (Some(point), Some(focus)) => Some(
            FocalPoint {
                position: Vector3 {
                    x: drawn(
                        focus.position.x as int,
                        point.position.x as int,
                        delta_millis as int,
                    ) as i32,
                    y: drawn(
                        focus.position.y as int,
                        point.position.y as int,
                        delta_millis as int,
                    ) as i32,
                    z: drawn(
                        focus.position.z as int,
                        point.position.z as int,
                        delta_millis as int,
                    ) as i32,
                },
            },
        ),
    }
}

/// Where a coordinate at `from` is after being drawn towards `to`.
fn draw(from: i32, to: i32, delta_millis: u32) -> (at: i64)
    ensures
        at == drawn(from as int, to as int, delta_millis as int),
{
    let gap: i128 = to as i128 - from as i128;
    let rate: i128 = FOCAL_POINT_RATE as i128;
    assert(rate == 10);
    let share: i128 = rate * (delta_millis as i128);
    assert(-0xa_0000_0000_0000_0000 <= gap * share <= 0xa_0000_0000_0000_0000)
        by (nonlinear_arith)
        requires
            -0x1_0000_0000 < gap < 0x1_0000_0000,
            0 <= share < 0xa_0000_0000,
    ;
    let step: i128 = floor_div(gap * share, UNIT as i128);
    proof {
        crate::geometry::lemma_floor_div_bounds(
            gap * share,
            UNIT as int,
            -0xa_0000_0000_0000_0000int,
            0xa_0000_0000_0000_0000int,
        );
    }
    (from as i128 + step) as i64
}

/// Whether a point at `from` that is drawn towards `to` for `delta_millis`
/// milliseconds stays in the space that coordinates can name.
#[verifier::when_used_as_spec(spec_drawable)]
pub fn drawable(from: Vector3, to: Vector3, delta_millis: u32) -> (fits: bool)
    ensures
        fits == spec_drawable(from, to, delta_millis),
{
    let x = draw(from.x, to.x, delta_millis);
    let y = draw(from.y, to.y, delta_millis);
    let z = draw(from.z, to.z, delta_millis);
    i32::MIN as i64 <= x && x <= i32::MAX as i64 && i32::MIN as i64 <= y && y <= i32::MAX as i64
        && i32::MIN as i64 <= z && z <= i32::MAX as i64
}

/// Moves the focal point of the camera after the influence point: makes it
/// at the influence point if there is none yet, else draws it towards the
/// influence point for the duration of the tick.
pub fn create_and_move_focal_point(
    focal: &mut Option<FocalPoint>,
    influence: Option<PlayerInfluenceRadius>,
    delta_millis: u32,
)
    requires
        can_follow(*old(focal), influence, delta_millis),
    ensures
        *final(focal) == after_follow(*old(focal), influence, delta_millis),
{
    let point = match influence {
        Some(point) => point,
        None => {
            return ;
        },
    };
    match *focal {
        None => {
            *focal = Some(FocalPoint { position: point.position });
        },
        Some(focus) => {
            let x = draw(focus.position.x, point.position.x, delta_millis);
            let y = draw(focus.position.y, point.position.y, delta_millis);
            let z = draw(focus.position.z, point.position.z, delta_millis);
            *focal = Some(
                FocalPoint { position: Vector3 { x: x as i32, y: y as i32, z: z as i32 } },
            );
        },
    }
}

/// A tick of no more than a tenth of a second leaves each coordinate between
/// where it was and where it is drawn to, so the point stays in the space
/// that coordinates can name.
pub proof fn lemma_short_tick_is_drawable(from: Vector3, to: Vector3, delta_millis: u32)
    requires
        FOCAL_POINT_RATE * delta_millis <= UNIT,
    ensures
        spec_drawable(from, to, delta_millis),
{
    lemma_drawn_between(from.x as int, to.x as int, delta_millis as int);
    lemma_drawn_between(from.y as int, to.y as int, delta_millis as int);
    lemma_drawn_between(from.z as int, to.z as int, delta_millis as int);
}

/// A coordinate that is drawn for no more than a tenth of a second ends
/// between where it was and where it is drawn to.
pub proof fn lemma_drawn_between(from: int, to: int, delta_millis: int)
    requires
        0 <= FOCAL_POINT_RATE * delta_millis <= UNIT,
    ensures
        from <= to ==> from <= drawn(from, to, delta_millis) <= to,
        to <= from ==> to <= drawn(from, to, delta_millis) <= from,
{
    let share = FOCAL_POINT_RATE * delta_millis;
    let gap = to - from;
    if from <= to {
        assert(0 <= gap * share <= UNIT * gap) by (nonlinear_arith)
            requires
                0 <= gap,
                0 <= share <= UNIT,
        ;
        crate::geometry::lemma_floor_div_bounds(gap * share, UNIT as int, 0, gap);
    } else {
        assert(UNIT * gap <= gap * share <= 0) by (nonlinear_arith)
            requires
                gap <= 0,
                0 <= share <= UNIT,
        ;
        crate::geometry::lemma_floor_div_bounds(gap * share, UNIT as int, gap, 0);
    }
}

} // verus!
