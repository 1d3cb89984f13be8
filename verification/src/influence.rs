//! The influence point: the place that the swarm gathers around.
//!
//! Each tick the point moves to the mean position of the playable marbles,
//! and every unscored marble is made active or inactive by its distance from
//! the point. The radius grows with the number of marbles that were active
//! when the tick began, so the larger a swarm, the harder it loses a marble
//! at its rim.

use crate::geometry::{floor_div, lemma_floor_div_bounds, square, Vector3};
use crate::swarm::{active_count, is_playable, lemma_take_next, Swarm, SwarmMember};
use vstd::prelude::*;

verus! {

/// How much each active marble, and one more, adds to the influence radius.
pub const INFLUENCE_ACTIVE_PLAYER_SCALING: i32 = 300;

/// The influence point of the swarm and the radius it has around a swarm of
/// no marbles.
#[derive(Clone, Copy, Debug, PartialEq, Eq, Structural)]
pub struct PlayerInfluenceRadius {
    pub position: Vector3,
    pub base_radius: i32,
}

/// The positions of the playable marbles, in swarm order.
pub open spec fn playable_positions(members: Seq<SwarmMember>) -> Seq<Vector3> {
    members.filter(is_playable()).map_values(|member: SwarmMember| member.position)
}

/// The sums of the coordinates of `points`.
pub open spec fn sum_of(points: Seq<Vector3>) -> (int, int, int)
    decreases points.len(),
{
    if points.len() == 0 {
        (0, 0, 0)
    } else {
        let (x, y, z) = sum_of(points.drop_last());
        (x + points.last().x, y + points.last().y, z + points.last().z)
    }
}

/// The arithmetic mean of `points`, each coordinate rounded down to a whole
/// number of thousandths.
pub open spec fn mean_of(points: Seq<Vector3>) -> Vector3
    recommends
        points.len() > 0,
{
    let (x, y, z) = sum_of(points);
    let n = points.len() as int;
    Vector3 { x: (x / n) as i32, y: (y / n) as i32, z: (z / n) as i32 }
}

/// The influence point after its update: at the mean position of the
/// playable marbles if there are any, else where it was.
pub open spec fn after_influence(
    influence: Option<PlayerInfluenceRadius>,
    members: Seq<SwarmMember>,
) -> Option<PlayerInfluenceRadius> {
    match influence {
        Some(point) if playable_positions(members).len() > 0 => Some(
            PlayerInfluenceRadius { position: mean_of(playable_positions(members)), ..point },
        ),
        _ => influence,
    }
}

/// The radius inside of which marbles are active, where `active` marbles are
/// active.
pub open spec fn effective_radius(base_radius: int, active: nat) -> int {
    base_radius + INFLUENCE_ACTIVE_PLAYER_SCALING * (active + 1)
}

/// Whether `member` is no further from `center` than `radius`. Squares are
/// compared, so that no root is taken.
pub open spec fn within(center: Vector3, member: Vector3, radius: int) -> bool {
    center.spec_distance_squared(member) <= square(radius)
}

/// `member` after the activation step around `point`, at a time when `active`
/// marbles were active: a scored marble is left alone, any other is active
/// exactly if it is within the effective radius.
pub open spec fn activated(
    member: SwarmMember,
    point: PlayerInfluenceRadius,
    active: nat,
) -> SwarmMember {
    if member.scored {
        member
    } else {
        SwarmMember {
            active: within(
                point.position,
                member.position,
                effective_radius(point.base_radius as int, active),
            ),
            ..member
        }
    }
}

/// The swarm after the activation step. The radius is that of the number of
/// marbles that were active before the step. Without an influence point
/// nothing changes.
pub open spec fn after_activation(
    members: Seq<SwarmMember>,
    influence: Option<PlayerInfluenceRadius>,
) -> Seq<SwarmMember> {
    match influence {
        Some(point) => Seq::new(
            members.len(),
            |i: int| activated(members[i], point, active_count(members)),
        ),
        None => members,
    }
}

/// The sum of some points and one more.
proof fn lemma_sum_push(points: Seq<Vector3>, point: Vector3)
    ensures
        sum_of(points.push(point)) == (
            sum_of(points).0 + point.x,
            sum_of(points).1 + point.y,
            sum_of(points).2 + point.z,
        ),
{
    assert(points.push(point).drop_last() == points);
}

/// The playable positions of a swarm and one more marble.
proof fn lemma_playable_positions_push(members: Seq<SwarmMember>, member: SwarmMember)
    ensures
        playable_positions(members.push(member)) == if member.playable() {
            playable_positions(members).push(member.position)
        } else {
            playable_positions(members)
        },
{
    members.lemma_filter_push(member, is_playable());
}

/// Whether every point of `points` lies in the box from `low` to `high`.
pub open spec fn all_between(points: Seq<Vector3>, low: Vector3, high: Vector3) -> bool {
    forall|i: int|
        #![trigger points[i]]
        0 <= i < points.len() ==> {
            &&& low.x <= points[i].x <= high.x
            &&& low.y <= points[i].y <= high.y
            &&& low.z <= points[i].z <= high.z
        }
}

/// The sums of points in a box lie between the corners of the box, each
/// taken as often as there are points.
proof fn lemma_sum_is_between(points: Seq<Vector3>, low: Vector3, high: Vector3)
    requires
        all_between(points, low, high),
    ensures
        points.len() * low.x <= sum_of(points).0 <= points.len() * high.x,
        points.len() * low.y <= sum_of(points).1 <= points.len() * high.y,
        points.len() * low.z <= sum_of(points).2 <= points.len() * high.z,
    decreases points.len(),
{
    if points.len() > 0 {
        let shorter = points.drop_last();
        let n = shorter.len() as int;
        assert(all_between(shorter, low, high)) by {
            assert forall|i: int| 0 <= i < shorter.len() implies low.x <= (#[trigger] shorter[i]).x
                <= high.x && low.y <= shorter[i].y <= high.y && low.z <= shorter[i].z
                <= high.z by {
                assert(shorter[i] == points[i]);
            }
        }
        lemma_sum_is_between(shorter, low, high);
        let last = points[points.len() - 1];
        assert(points.last() == last);
        assert((n + 1) * low.x == n * low.x + low.x && (n + 1) * high.x == n * high.x + high.x
            && (n + 1) * low.y == n * low.y + low.y && (n + 1) * high.y == n * high.y + high.y
            && (n + 1) * low.z == n * low.z + low.z && (n + 1) * high.z == n * high.z + high.z)
            by (nonlinear_arith);
    }
}

/// The mean of points in a box lies in the box: the influence point is
/// never outside of what bounds the playable marbles.
pub proof fn lemma_mean_is_between(points: Seq<Vector3>, low: Vector3, high: Vector3)
    requires
        points.len() > 0,
        all_between(points, low, high),
    ensures
        low.x <= mean_of(points).x <= high.x,
        low.y <= mean_of(points).y <= high.y,
        low.z <= mean_of(points).z <= high.z,
{
    lemma_sum_is_between(points, low, high);
    let n = points.len() as int;
    lemma_floor_div_bounds(sum_of(points).0, n, low.x as int, high.x as int);
    lemma_floor_div_bounds(sum_of(points).1, n, low.y as int, high.y as int);
    lemma_floor_div_bounds(sum_of(points).2, n, low.z as int, high.z as int);
}

/// Each further active marble widens the effective radius by the scaling
/// constant.
pub proof fn lemma_radius_grows_with_swarm(base_radius: int, fewer: nat, more: nat)
    requires
        fewer <= more,
    ensures
        effective_radius(base_radius, more) == effective_radius(base_radius, fewer)
            + INFLUENCE_ACTIVE_PLAYER_SCALING * (more - fewer),
        effective_radius(base_radius, fewer) <= effective_radius(base_radius, more),
{
}

/// What is within a radius is within every wider one.
pub proof fn lemma_wider_radius_keeps_inside(
    center: Vector3,
    member: Vector3,
    narrow: int,
    wide: int,
)
    requires
        0 <= narrow <= wide,
        within(center, member, narrow),
    ensures
        within(center, member, wide),
{
    assert(narrow * narrow <= wide * wide) by (nonlinear_arith)
        requires
            0 <= narrow <= wide,
    ;
}

/// The radius does not shrink away from a marble that made it grow: where an
/// activation step leaves no fewer marbles active than it found, every
/// marble that it made active is still active after the next step around
/// the same point, as long as nothing has moved.
pub proof fn lemma_growth_keeps_members(members: Seq<SwarmMember>, point: PlayerInfluenceRadius)
    requires
        point.wf(),
        active_count(after_activation(members, Some(point))) >= active_count(members),
    ensures
        forall|i: int|
            #![trigger after_activation(after_activation(members, Some(point)), Some(point))[i]]
            0 <= i < members.len() && !members[i].scored && after_activation(
                members,
                Some(point),
            )[i].active ==> after_activation(
                after_activation(members, Some(point)),
                Some(point),
            )[i].active,
{
    let once = after_activation(members, Some(point));
    let twice = after_activation(once, Some(point));
    let narrow = effective_radius(point.base_radius as int, active_count(members));
    let wide = effective_radius(point.base_radius as int, active_count(once));
    lemma_radius_grows_with_swarm(
        point.base_radius as int,
        active_count(members),
        active_count(once),
    );
    assert forall|i: int|
        0 <= i < members.len() && !members[i].scored && once[i].active implies twice[i].active by {
        lemma_wider_radius_keeps_inside(point.position, members[i].position, narrow, wide);
    }
}

/// The activation step changes nothing of a marble but whether it is active,
/// and nothing at all of a scored marble: well-formed marbles stay well
/// formed.
pub proof fn lemma_activation_keeps_wf(
    members: Seq<SwarmMember>,
    influence: Option<PlayerInfluenceRadius>,
)
    ensures
        after_activation(members, influence).len() == members.len(),
        forall|i: int|
            #![trigger after_activation(members, influence)[i]]
            0 <= i < members.len() ==> {
                &&& after_activation(members, influence)[i] == SwarmMember {
                    active: after_activation(members, influence)[i].active,
                    ..members[i]
                }
                &&& members[i].scored ==> after_activation(members, influence)[i] == members[i]
                &&& members[i].wf() ==> after_activation(members, influence)[i].wf()
            },
{
}

impl PlayerInfluenceRadius {
    /// A radius is not negative.
    pub open spec fn wf(self) -> bool {
        self.base_radius >= 0
    }

    /// The radius inside of which marbles are active, where `active` marbles
    /// are active.
    pub fn effective_radius(&self, active: usize) -> (radius: i128)
        ensures
            radius == effective_radius(self.base_radius as int, active as nat),
    {
        self.base_radius as i128 + (INFLUENCE_ACTIVE_PLAYER_SCALING as i128) * (active as i128 + 1)
    }

    /// Whether `member` is no further from the point than `radius`.
    pub fn within(&self, member: Vector3, radius: i128) -> (inside: bool)
        requires
            -0x1_0000_0000_0000_0000_0000 < radius < 0x1_0000_0000_0000_0000_0000,
        ensures
            inside == within(self.position, member, radius as int),
    {
        let distance: u128 = self.position.distance_squared(member);
        let reach: u128 = if radius < 0 {
            (-radius) as u128
        } else {
            radius as u128
        };
        assert(distance <= 0x4_0000_0000_0000_0000) by (nonlinear_arith)
            requires
                distance == square(self.position.x - member.x) + square(
                    self.position.y - member.y,
                ) + square(self.position.z - member.z),
                -0x1_0000_0000 < self.position.x - member.x < 0x1_0000_0000,
                -0x1_0000_0000 < self.position.y - member.y < 0x1_0000_0000,
                -0x1_0000_0000 < self.position.z - member.z < 0x1_0000_0000,
        ;
        if reach >= 0x8_0000_0000 {
            assert(square(radius as int) >= 0x4_0000_0000_0000_0000) by (nonlinear_arith)
                requires
                    reach == radius || reach == -radius,
                    reach >= 0x8_0000_0000,
            ;
            true
        } else {
            assert(reach * reach == square(radius as int) && reach * reach
                <= 0x40_0000_0000_0000_0000) by (nonlinear_arith)
                requires
                    reach == radius || reach == -radius,
                    0 <= reach < 0x8_0000_0000,
            ;
            distance <= reach * reach
        }
    }
}

/// Moves the influence point to the mean position of the playable marbles.
/// With no playable marble, or with no point, nothing changes: the point
/// stays where the swarm was last seen.
pub fn manage_player_influence(influence: &mut Option<PlayerInfluenceRadius>, swarm: &Swarm)
    ensures
        *final(influence) == after_influence(*old(influence), swarm@),
{
    let point = match *influence {
        Some(point) => point,
        None => {
            return ;
        },
    };
    let mut count: usize = 0;
    let mut x: i128 = 0;
    let mut y: i128 = 0;
    let mut z: i128 = 0;
    let mut i: usize = 0;
    while i < swarm.members.len()
        invariant
            i <= swarm.members.len(),
            count <= i,
            count == playable_positions(swarm@.take(i as int)).len(),
            (x as int, y as int, z as int) == sum_of(playable_positions(swarm@.take(i as int))),
            -0x8000_0000 * count <= x <= 0x7fff_ffff * count,
            -0x8000_0000 * count <= y <= 0x7fff_ffff * count,
            -0x8000_0000 * count <= z <= 0x7fff_ffff * count,
        decreases swarm.members.len() - i,
    {
        let member = swarm.members[i];
        proof {
            lemma_take_next(swarm@, i as int);
            lemma_playable_positions_push(swarm@.take(i as int), member);
            lemma_sum_push(playable_positions(swarm@.take(i as int)), member.position);
        }
        if member.playable() {
            count += 1;
            x += member.position.x as i128;
            y += member.position.y as i128;
            z += member.position.z as i128;
        }
        i += 1;
    }
    assert(swarm@.take(i as int) == swarm@);
    if count > 0 {
        let n: i128 = count as i128;
        proof {
            lemma_floor_div_bounds(x as int, n as int, -0x8000_0000, 0x7fff_ffff);
            lemma_floor_div_bounds(y as int, n as int, -0x8000_0000, 0x7fff_ffff);
            lemma_floor_div_bounds(z as int, n as int, -0x8000_0000, 0x7fff_ffff);
        }
        let mean = Vector3 {
            x: floor_div(x, n) as i32,
            y: floor_div(y, n) as i32,
            z: floor_div(z, n) as i32,
        };
        *influence = Some(PlayerInfluenceRadius { position: mean, base_radius: point.base_radius });
    }
}

/// Makes every unscored marble active or inactive by its distance from the
/// influence point. The radius is that of the number of marbles that are
/// active when the step begins. Without an influence point nothing changes.
pub fn manage_active_players(swarm: &mut Swarm, influence: Option<PlayerInfluenceRadius>)
    ensures
        final(swarm)@ == after_activation(old(swarm)@, influence),
        old(swarm).wf() ==> final(swarm).wf(),
{
    let ghost before = swarm@;
    let point = match influence {
        Some(point) => point,
        None => {
            return ;
        },
    };
    let active = swarm.active_count();
    let radius = point.effective_radius(active);
    let mut i: usize = 0;
    while i < swarm.members.len()
        invariant
            i <= swarm.members.len(),
            swarm@.len() == before.len(),
            active == active_count(before),
            radius == effective_radius(point.base_radius as int, active as nat),
            forall|k: int|
                0 <= k < i ==> #[trigger] swarm@[k] == activated(before[k], point, active as nat),
            forall|k: int| i <= k < before.len() ==> #[trigger] swarm@[k] == before[k],
        decreases swarm.members.len() - i,
    {
        let member = swarm.members[i];
        if !member.scored {
            let mut updated = member;
            updated.active = point.within(member.position, radius);
            swarm.members.set(i, updated);
        }
        i += 1;
    }
    assert(swarm@ =~= after_activation(before, influence));
}

} // verus!
