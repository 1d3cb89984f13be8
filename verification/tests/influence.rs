use bevy_blast_ultra::geometry::Vector3;
use bevy_blast_ultra::influence::{
    manage_active_players, manage_player_influence, PlayerInfluenceRadius,
    INFLUENCE_ACTIVE_PLAYER_SCALING,
};
use bevy_blast_ultra::swarm::Swarm;

fn influence_at(x: i32, y: i32, z: i32, base_radius: i32) -> PlayerInfluenceRadius {
    PlayerInfluenceRadius { position: Vector3::new(x, y, z), base_radius }
}

fn swarm_at(points: &[(i32, i32, i32)]) -> Swarm {
    let mut swarm = Swarm::new();
    for (x, y, z) in points {
        swarm.spawn(Vector3::new(*x, *y, *z));
    }
    swarm
}

#[test]
fn radius_grows_by_the_scaling_for_each_active_marble() {
    let point = influence_at(0, 0, 0, 2000);
    assert_eq!(INFLUENCE_ACTIVE_PLAYER_SCALING, 300);
    assert_eq!(point.effective_radius(0), 2300);
    assert_eq!(point.effective_radius(2), 2900);
    assert_eq!(point.effective_radius(3), 3200);
    assert_eq!(
        point.effective_radius(usize::MAX),
        2000 + 300 * (usize::MAX as i128 + 1)
    );
}

#[test]
fn third_marble_widens_the_radius_one_tick_later() {
    // Two active marbles near the point, a third one at 3.0: outside of 2.9.
    let point = Some(influence_at(0, 0, 0, 2000));
    let mut swarm = swarm_at(&[(0, 0, 0), (100, 0, 0), (3000, 0, 0), (3100, 0, 0)]);
    swarm.members[2].active = false;
    swarm.members[3].active = false;
    manage_active_players(&mut swarm, point);
    assert!(!swarm.members[2].active);
    // The third marble comes within 2.9 and is made active; the radius of this
    // tick is still that of two marbles, so the fourth stays out.
    swarm.members[2].position = Vector3::new(2900, 0, 0);
    manage_active_players(&mut swarm, point);
    assert!(swarm.members[2].active);
    assert!(!swarm.members[3].active);
    assert_eq!(swarm.active_count(), 3);
    // The next tick has the radius of three marbles, 3.2: the third marble
    // may drift to 3.1 and stays, and the fourth is taken in.
    swarm.members[2].position = Vector3::new(3100, 0, 0);
    manage_active_players(&mut swarm, point);
    assert!(swarm.members[2].active);
    assert!(swarm.members[3].active);
}

#[test]
fn marble_on_the_rim_is_inside() {
    let point = influence_at(1000, 1000, 1000, 700);
    // One active marble: radius 0.7 + 0.3 * 2 = 1.3.
    assert!(point.within(Vector3::new(2300, 1000, 1000), 1300));
    assert!(!point.within(Vector3::new(2301, 1000, 1000), 1300));
    assert!(point.within(Vector3::new(1500, -200, 1000), 1300));
    assert!(!point.within(Vector3::new(1500, -200, 1001), 1300));
    // A negative radius reaches as far as its amount.
    assert!(point.within(Vector3::new(2300, 1000, 1000), -1300));
    assert!(!point.within(Vector3::new(2301, 1000, 1000), -1300));
}

#[test]
fn far_corners_of_space_are_told_apart() {
    let point = influence_at(i32::MIN, i32::MIN, i32::MIN, 0);
    let far = Vector3::new(i32::MAX, i32::MAX, i32::MAX);
    // The diagonal is 4294967295 * sqrt(3) = 7439101571.9...
    assert!(!point.within(far, 7_439_101_571));
    assert!(point.within(far, 7_439_101_572));
    assert!(point.within(far, 0x8_0000_0000));
    assert!(point.within(far, 0xffff_ffff_ffff_ffff_ffff));
    assert!(point.within(far, -0xffff_ffff_ffff_ffff_ffff));
}

#[test]
fn activation_leaves_scored_marbles_alone() {
    let point = Some(influence_at(0, 0, 0, 1000));
    let mut swarm = swarm_at(&[(0, 0, 0), (10, 0, 0), (900_000, 0, 0)]);
    swarm.members[1].scored = true;
    swarm.members[1].active = false;
    swarm.members[2].grounded = true;
    let before = swarm.members.clone();
    manage_active_players(&mut swarm, point);
    assert!(swarm.members[0].active);
    assert_eq!(swarm.members[1], before[1]);
    assert!(!swarm.members[2].active);
    assert!(swarm.members[2].grounded);
    assert_eq!(swarm.members[2].position, before[2].position);
}

#[test]
fn activation_without_a_point_changes_nothing() {
    let mut swarm = swarm_at(&[(0, 0, 0), (900_000, 0, 0)]);
    swarm.members[0].active = false;
    let before = swarm.members.clone();
    manage_active_players(&mut swarm, None);
    assert_eq!(swarm.members, before);
}

#[test]
fn point_moves_to_the_mean_of_the_playable_marbles() {
    let mut point = Some(influence_at(7, 7, 7, 2000));
    let mut swarm = swarm_at(&[(1000, 0, -3000), (2000, 10, -3000), (4000, 0, 0), (50, 50, 50)]);
    swarm.members[2].active = false;
    swarm.members[3].scored = true;
    manage_player_influence(&mut point, &swarm);
    assert_eq!(point, Some(influence_at(1500, 5, -3000, 2000)));
}

#[test]
fn mean_is_rounded_down() {
    let mut point = Some(influence_at(0, 0, 0, 1));
    let swarm = swarm_at(&[(1, -1, 0), (2, -2, 0), (2, -2, -1)]);
    manage_player_influence(&mut point, &swarm);
    // Sums 5, -5 and -1 over three marbles.
    assert_eq!(point, Some(influence_at(1, -2, -1, 1)));
}

#[test]
fn mean_of_the_far_corner_is_the_far_corner() {
    let mut point = Some(influence_at(0, 0, 0, 1));
    let corner = (i32::MAX, i32::MIN, 0);
    let swarm = swarm_at(&[corner, corner, corner]);
    manage_player_influence(&mut point, &swarm);
    assert_eq!(point, Some(influence_at(i32::MAX, i32::MIN, 0, 1)));
}

#[test]
fn point_stays_when_no_marble_is_playable() {
    let mut point = Some(influence_at(7, 8, 9, 2000));
    let mut swarm = swarm_at(&[(1000, 0, 0), (2000, 0, 0)]);
    swarm.members[0].active = false;
    swarm.members[1].scored = true;
    manage_player_influence(&mut point, &swarm);
    assert_eq!(point, Some(influence_at(7, 8, 9, 2000)));
    manage_player_influence(&mut point, &Swarm::new());
    assert_eq!(point, Some(influence_at(7, 8, 9, 2000)));
}

#[test]
fn missing_point_stays_missing() {
    let mut point = None;
    manage_player_influence(&mut point, &swarm_at(&[(1, 2, 3)]));
    assert_eq!(point, None);
}
