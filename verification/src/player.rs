//! What the marbles are told to do: which of them are steered, pulled
//! towards the influence point and made to jump, and how strongly. The
//! directions of the forces are left to the physics collaborator.

use crate::geometry::{floor_div, Vector3, UNIT};
use crate::influence::PlayerInfluenceRadius;
use crate::swarm::{Swarm, SwarmMember};
use vstd::prelude::*;

verus! {

/// Milliseconds in a second.
pub const MILLIS_PER_SECOND: i32 = 1000;

/// What the player settings say of the forces on a marble, in thousandths.
#[derive(Clone, Copy, Debug, PartialEq, Eq, Structural)]
pub struct PlayerSettings {
    pub torque_strength: i32,
    pub magnetism_deadzone: i32,
    pub magnetism_strength: i32,
}

/// A torque, in thousandths.
#[derive(Clone, Copy, Debug, PartialEq, Eq, Structural)]
pub struct Torque {
    pub x: i64,
    pub y: i64,
    pub z: i64,
}

/// The pull on one marble towards the influence point.
#[derive(Clone, Copy, Debug, PartialEq, Eq, Structural)]
pub struct Magnetism {
    /// Index of the marble in the swarm.
    pub player: usize,
    /// The size of the impulse along the direction to the influence point,
    /// in thousandths.
    pub impulse: i128,
}

/// Whether `root` is the square root of `n`, rounded down.
pub open spec fn is_floor_sqrt(n: int, root: int) -> bool {
    0 <= root && root * root <= n < (root + 1) * (root + 1)
}

/// The square root of `n`, rounded down.
pub open spec fn floor_sqrt(n: int) -> int {
    choose|root: int| is_floor_sqrt(n, root)
}

/// The distance between two points, rounded down to a whole thousandth.
pub open spec fn distance(a: Vector3, b: Vector3) -> int {
    floor_sqrt(a.spec_distance_squared(b))
}

/// How far a marble at `distance` from the influence point is beyond the
/// dead zone around it.
pub open spec fn beyond_deadzone(distance: int, deadzone: int) -> int {
    if distance < deadzone {
        0
    } else {
        distance - deadzone
    }
}

/// The size of the impulse that pulls a marble at `distance` from the
/// influence point towards it in a tick of `delta_millis` milliseconds: the
/// strength times the distance beyond the dead zone times the duration,
/// rounded down to a whole thousandth.
pub open spec fn magnetism(distance: int, settings: PlayerSettings, delta_millis: int) -> int {
    (beyond_deadzone(distance, settings.magnetism_deadzone as int) * settings.magnetism_strength
        * delta_millis) / (UNIT * MILLIS_PER_SECOND)
}

/// The pulls of one tick on the marbles of `members`, in swarm order, where
/// the first of `members` has index `first`: one for each playable marble.
pub open spec fn pulls(
    members: Seq<SwarmMember>,
    point: PlayerInfluenceRadius,
    settings: PlayerSettings,
    delta_millis: int,
    first: nat,
) -> Seq<Magnetism>
    decreases members.len(),
{
    if members.len() == 0 {
        Seq::empty()
    } else {
        let rest = pulls(members.drop_first(), point, settings, delta_millis, first + 1);
        if members[0].playable() {
            seq![
                Magnetism {
                    player: first as usize,
                    impulse: magnetism(
                        distance(members[0].position, point.position),
                        settings,
                        delta_millis,
                    ) as i128,
                },
            ] + rest
        } else {
            rest
        }
    }
}

/// The pulls of one tick. Without an influence point there is none.
pub open spec fn spec_magnetize(
    members: Seq<SwarmMember>,
    influence: Option<PlayerInfluenceRadius>,
    settings: PlayerSettings,
    delta_millis: u32,
) -> Seq<Magnetism> {
    match influence {
        Some(point) => pulls(members, point, settings, delta_millis as int, 0),
        None => Seq::empty(),
    }
}

/// A number has one square root, rounded down.
pub proof fn lemma_floor_sqrt_is_unique(n: int, root: int, other: int)
    requires
        is_floor_sqrt(n, root),
        is_floor_sqrt(n, other),
    ensures
        root == other,
{
    if root < other {
        assert((root + 1) * (root + 1) <= other * other) by (nonlinear_arith)
            requires
                0 <= root,
                root + 1 <= other,
        ;
    } else if other < root {
        assert((other + 1) * (other + 1) <= root * root) by (nonlinear_arith)
            requires
                0 <= other,
                other + 1 <= root,
        ;
    }
}

/// The square root of `n`, rounded down.
pub fn isqrt(n: u128) -> (root: u128)
    ensures
        root == floor_sqrt(n as int),
        is_floor_sqrt(n as int, root as int),
        root < 0x1_0000_0000_0000_0000,
{
    let mut low: u128 = 0;
    let mut high: u128 = 0x1_0000_0000_0000_0000;
    assert(n < high * high) by (nonlinear_arith)
        requires
            high == 0x1_0000_0000_0000_0000,
            n <= u128::MAX,
    ;
    assert(low * low <= n) by (nonlinear_arith)
        requires
            low == 0,
            0 <= n,
    ;
    while high - low > 1
        invariant
            low < high <= 0x1_0000_0000_0000_0000,
            low * low <= n < high * high,
        decreases high - low,
    {
        let middle: u128 = low + (high - low) / 2;
        assert(middle * middle < 0x1_0000_0000_0000_0000_0000_0000_0000_0000) by (nonlinear_arith)
            requires
                0 <= middle < 0x1_0000_0000_0000_0000,
        ;
        if middle * middle <= n {
            low = middle;
        } else {
            high = middle;
        }
    }
    proof {
        let found = choose|root: int| is_floor_sqrt(n as int, root);
        assert(is_floor_sqrt(n as int, low as int));
        lemma_floor_sqrt_is_unique(n as int, low as int, found);
    }
    low
}

/// The size of the impulse that pulls a marble at `distance` from the
/// influence point towards it.
pub fn magnetism_at(distance: u128, settings: PlayerSettings, delta_millis: u32) -> (impulse: i128)
    requires
        distance < 0x2_0000_0000,
    ensures
        impulse == magnetism(distance as int, settings, delta_millis as int),
{
    let reach: i128 = if (distance as i128) < settings.magnetism_deadzone as i128 {
        0
    } else {
        distance as i128 - settings.magnetism_deadzone as i128
    };
    let strength: i128 = settings.magnetism_strength as i128;
    let duration: i128 = delta_millis as i128;
    assert(-0x1_0000_0000_0000_0000_0000 <= reach * strength <= 0x1_0000_0000_0000_0000_0000)
        by (nonlinear_arith)
        requires
            0 <= reach < 0x4_0000_0000,
            -0x8000_0000 <= strength < 0x8000_0000,
    ;
    let pull: i128 = reach * strength;
    assert(-0x1_0000_0000_0000_0000_0000_0000_0000 <= pull * duration
        <= 0x1_0000_0000_0000_0000_0000_0000_0000) by (nonlinear_arith)
        requires
            -0x1_0000_0000_0000_0000_0000 <= pull <= 0x1_0000_0000_0000_0000_0000,
            0 <= duration < 0x1_0000_0000,
    ;
    let scale: i128 = 1_000_000;
    assert(scale == UNIT * MILLIS_PER_SECOND);
    floor_div(pull * duration, scale)
}

/// Pulls every playable marble towards the influence point, the stronger
/// the further it is beyond the dead zone. Returns the size of each impulse,
/// in swarm order; the impulse points from the marble to the influence
/// point. Without an influence point no marble is pulled.
pub fn magnetize(
    swarm: &Swarm,
    influence: Option<PlayerInfluenceRadius>,
    settings: PlayerSettings,
    delta_millis: u32,
) -> (pulled: Vec<Magnetism>)
    ensures
        pulled@ == spec_magnetize(swarm@, influence, settings, delta_millis),
{
    let mut pulled: Vec<Magnetism> = Vec::new();
    let point = match influence {
        Some(point) => point,
        None => {
            return pulled;
        },
    };
    let mut i: usize = 0;
    assert(swarm@.skip(0) == swarm@);
    while i < swarm.members.len()
        invariant
            i <= swarm.members.len(),
            pulled@ + pulls(swarm@.skip(i as int), point, settings, delta_millis as int, i as nat)
                == pulls(swarm@, point, settings, delta_millis as int, 0),
        decreases swarm.members.len() - i,
    {
        let member = swarm.members[i];
        let ghost rest = pulls(
            swarm@.skip(i + 1),
            point,
            settings,
            delta_millis as int,
            (i + 1) as nat,
        );
        let ghost done = pulled@;
        proof {
            assert(swarm@.skip(i as int)[0] == member);
            assert(swarm@.skip(i as int).drop_first() == swarm@.skip(i + 1));
        }
        if member.playable() {
            let squared = member.position.distance_squared(point.position);
            let away = isqrt(squared);
            assert(away < 0x2_0000_0000) by (nonlinear_arith)
                requires
                    away * away <= squared,
                    squared <= 0x3_0000_0000_0000_0000,
                    0 <= away,
            ;
            let pull = Magnetism { player: i, impulse: magnetism_at(away, settings, delta_millis) };
            assert(done + (seq![pull] + rest) == done.push(pull) + rest);
            pulled.push(pull);
        }
        i += 1;
    }
    pulled
}

/// The torque that the move axis asks for, before it is turned to face away
/// from the camera: the strength times the axis, rounded down to a whole
/// thousandth, or none where the axis is not read.
pub open spec fn spec_steering(axis: Option<(i32, i32)>, settings: PlayerSettings) -> Torque {
    match axis {
        Some((x, y)) => Torque {
            x: ((settings.torque_strength * -y) / (UNIT as int)) as i64,
            y: 0,
            z: ((settings.torque_strength * -x) / (UNIT as int)) as i64,
        },
        None => Torque { x: 0, y: 0, z: 0 },
    }
}

/// The torque that the move axis asks for, before it is turned to face away
/// from the camera. The axis is in thousandths.
#[verifier::when_used_as_spec(spec_steering)]
pub fn steering(axis: Option<(i32, i32)>, settings: PlayerSettings) -> (torque: Torque)
    ensures
        torque == spec_steering(axis, settings),
{
    match axis {
        Some((x, y)) => {
            let strength: i128 = settings.torque_strength as i128;
            let along: i128 = -(y as i128);
            let across: i128 = -(x as i128);
            assert(-0x4000_0000_0000_0000 <= strength * along <= 0x4000_0000_0000_0000
                && -0x4000_0000_0000_0000 <= strength * across <= 0x4000_0000_0000_0000)
                by (nonlinear_arith)
                requires
                    -0x8000_0000 <= strength <= 0x8000_0000,
                    -0x8000_0000 <= along <= 0x8000_0000,
                    -0x8000_0000 <= across <= 0x8000_0000,
            ;
            proof {
                crate::geometry::lemma_floor_div_bounds(
                    strength * along,
                    UNIT as int,
                    -0x4000_0000_0000_0000,
                    0x4000_0000_0000_0000,
                );
                crate::geometry::lemma_floor_div_bounds(
                    strength * across,
                    UNIT as int,
                    -0x4000_0000_0000_0000,
                    0x4000_0000_0000_0000,
                );
            }
            Torque {
                x: floor_div(strength * along, UNIT as i128) as i64,
                y: 0,
                z: floor_div(strength * across, UNIT as i128) as i64,
            }
        },
        None => Torque { x: 0, y: 0, z: 0 },
    }
}

impl SwarmMember {
    /// Steered by the move axis: active, or scored and on its way into the
    /// goal.
    pub open spec fn spec_steered(self) -> bool {
        self.active || self.scored
    }

    /// Able to jump: active and on the ground.
    pub open spec fn spec_can_jump(self) -> bool {
        self.active && self.grounded
    }

    /// Steered by the move axis.
    #[verifier::when_used_as_spec(spec_steered)]
    pub fn steered(self) -> (steered: bool)
        ensures
            steered == self.spec_steered(),
    {
        self.active || self.scored
    }

    /// Able to jump.
    #[verifier::when_used_as_spec(spec_can_jump)]
    pub fn can_jump(self) -> (can: bool)
        ensures
            can == self.spec_can_jump(),
    {
        self.active && self.grounded
    }
}

/// The swarm once the ground has been looked for under each active marble:
/// `hits` says for each marble whether something was found. Inactive
/// marbles are not looked at.
pub open spec fn after_grounding(members: Seq<SwarmMember>, hits: Seq<bool>) -> Seq<SwarmMember> {
    Seq::new(
        members.len(),
        |i: int|
            if members[i].active {
                SwarmMember { grounded: hits[i], ..members[i] }
            } else {
                members[i]
            },
    )
}

/// Records for each active marble whether it rests on the ground.
pub fn check_grounded(swarm: &mut Swarm, hits: &Vec<bool>)
    requires
        hits@.len() == old(swarm)@.len(),
    ensures
        final(swarm)@ == after_grounding(old(swarm)@, hits@),
        old(swarm).wf() ==> final(swarm).wf(),
{
    let ghost before = swarm@;
    let mut i: usize = 0;
    while i < swarm.members.len()
        invariant
            i <= swarm.members.len(),
            swarm@.len() == before.len(),
            hits@.len() == before.len(),
            forall|k: int| 0 <= k < i ==> #[trigger] swarm@[k] == after_grounding(before, hits@)[k],
            forall|k: int| i <= k < before.len() ==> #[trigger] swarm@[k] == before[k],
        decreases swarm.members.len() - i,
    {
        let member = swarm.members[i];
        if member.active {
            let mut updated = member;
            updated.grounded = hits[i];
            swarm.members.set(i, updated);
        }
        i += 1;
    }
    assert(swarm@ =~= after_grounding(before, hits@));
}

} // verus!
