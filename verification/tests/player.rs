use bevy_blast_ultra::camera::OrbitCamera;
use bevy_blast_ultra::gameplay::swarm_tick;
use bevy_blast_ultra::geometry::Vector3;
use bevy_blast_ultra::influence::PlayerInfluenceRadius;
use bevy_blast_ultra::player::{
    check_grounded, isqrt, magnetism_at, magnetize, steering, Magnetism, PlayerSettings, Torque,
};
use bevy_blast_ultra::prelude::{GameManager, GameState, PhaseMachine};
use bevy_blast_ultra::swarm::Swarm;

fn settings() -> PlayerSettings {
    PlayerSettings {
        torque_strength: 8000,
        magnetism_deadzone: 1000,
        magnetism_strength: 2500,
    }
}

fn machine_at(state: GameState) -> PhaseMachine {
    let mut machine = PhaseMachine::new();
    machine.request(state);
    machine.apply_pending();
    machine
}

#[test]
fn square_roots_are_rounded_down() {
    for (n, root) in [(0u128, 0u128), (1, 1), (2, 1), (3, 1), (4, 2), (24, 4), (25, 5), (26, 5)] {
        assert_eq!(isqrt(n), root);
    }
    assert_eq!(isqrt(3 * 4_294_967_295u128 * 4_294_967_295u128), 7_439_101_571);
    assert_eq!(isqrt(u128::MAX), u64::MAX as u128);
    assert_eq!(isqrt((1u128 << 64) - 1), (1u128 << 32) - 1);
    assert_eq!(isqrt(1u128 << 64), 1u128 << 32);
}

#[test]
fn magnetism_grows_beyond_the_deadzone() {
    // Strength 2.5, deadzone 1.0, a tick of 16 ms.
    assert_eq!(magnetism_at(0, settings(), 16), 0);
    assert_eq!(magnetism_at(999, settings(), 16), 0);
    assert_eq!(magnetism_at(1000, settings(), 16), 0);
    // 2.0 beyond the deadzone: 2.0 * 2.5 * 0.016 = 0.08.
    assert_eq!(magnetism_at(3000, settings(), 16), 80);
    // 0.001 beyond: 1 * 2500 * 16 / 1000000 = 0.04 thousandths, rounded down.
    assert_eq!(magnetism_at(1001, settings(), 16), 0);
    assert_eq!(magnetism_at(3000, settings(), 0), 0);
}

#[test]
fn negative_strength_pushes_away() {
    let repel = PlayerSettings { magnetism_strength: -2500, ..settings() };
    assert_eq!(magnetism_at(3000, repel, 16), -80);
    assert_eq!(magnetism_at(1001, repel, 16), -1);
    let wide = PlayerSettings { magnetism_deadzone: -1000, ..settings() };
    assert_eq!(magnetism_at(0, wide, 16), 40);
}

#[test]
fn playable_marbles_are_pulled_to_the_point() {
    let mut swarm = Swarm::new();
    swarm.spawn(Vector3::new(3000, 4000, 0));
    swarm.spawn(Vector3::new(0, 0, 0));
    swarm.spawn(Vector3::new(6000, 0, 8000));
    swarm.spawn(Vector3::new(0, 0, 12000));
    swarm.members[1].active = false;
    swarm.members[2].scored = true;
    let point = Some(PlayerInfluenceRadius { position: Vector3::zero(), base_radius: 2000 });
    let pulled = magnetize(&swarm, point, settings(), 100);
    // Distances 5.0 and 12.0: (5 - 1) * 2.5 * 0.1 = 1.0 and (12 - 1) * 2.5 * 0.1 = 2.75.
    assert_eq!(
        pulled,
        vec![Magnetism { player: 0, impulse: 1000 }, Magnetism { player: 3, impulse: 2750 }]
    );
    assert!(magnetize(&swarm, None, settings(), 100).is_empty());
}

#[test]
fn distance_of_a_pull_is_rounded_down() {
    let mut swarm = Swarm::new();
    // The distance is sqrt(2) * 2000 = 2828.4...: 1828 beyond the deadzone.
    swarm.spawn(Vector3::new(2000, 2000, 0));
    let point = Some(PlayerInfluenceRadius { position: Vector3::zero(), base_radius: 0 });
    let unit_strength = PlayerSettings { magnetism_strength: 1000, ..settings() };
    let pulled = magnetize(&swarm, point, unit_strength, 1000);
    assert_eq!(pulled, vec![Magnetism { player: 0, impulse: 1828 }]);
}

#[test]
fn steering_follows_the_move_axis() {
    assert_eq!(steering(None, settings()), Torque { x: 0, y: 0, z: 0 });
    assert_eq!(steering(Some((0, 0)), settings()), Torque { x: 0, y: 0, z: 0 });
    assert_eq!(steering(Some((1000, 0)), settings()), Torque { x: 0, y: 0, z: -8000 });
    assert_eq!(steering(Some((0, 1000)), settings()), Torque { x: -8000, y: 0, z: 0 });
    assert_eq!(steering(Some((-500, 250)), settings()), Torque { x: -2000, y: 0, z: 4000 });
    // Products are rounded down: 8000 * -1 / 1000 = -0.008 thousandths.
    assert_eq!(steering(Some((1, -1)), settings()), Torque { x: 8, y: 0, z: -8 });
    let weak = PlayerSettings { torque_strength: 1, ..settings() };
    assert_eq!(steering(Some((1, -1)), weak), Torque { x: 0, y: 0, z: -1 });
    let most = PlayerSettings { torque_strength: i32::MIN, ..settings() };
    assert_eq!(
        steering(Some((i32::MIN, i32::MAX)), most),
        Torque { x: 4_611_686_016_279_904, y: 0, z: -4_611_686_018_427_388 }
    );
}

#[test]
fn ground_is_recorded_for_active_marbles() {
    let mut swarm = Swarm::new();
    for _ in 0..4 {
        swarm.spawn(Vector3::zero());
    }
    swarm.members[1].grounded = true;
    swarm.members[2].active = false;
    swarm.members[3].active = false;
    swarm.members[3].grounded = true;
    check_grounded(&mut swarm, &vec![true, false, true, false]);
    let grounded: Vec<bool> = swarm.members.iter().map(|m| m.grounded).collect();
    assert_eq!(grounded, vec![true, false, false, true]);
    let can_jump: Vec<bool> = swarm.members.iter().map(|m| m.can_jump()).collect();
    assert_eq!(can_jump, vec![true, false, false, false]);
}

#[test]
fn scored_marbles_are_still_steered() {
    let mut swarm = Swarm::new();
    for _ in 0..3 {
        swarm.spawn(Vector3::zero());
    }
    swarm.members[1].active = false;
    swarm.members[2].active = false;
    swarm.members[2].scored = true;
    let steered: Vec<bool> = swarm.members.iter().map(|m| m.steered()).collect();
    assert_eq!(steered, vec![true, false, true]);
}

#[test]
fn influence_moves_before_marbles_are_activated() {
    let machine = machine_at(GameState::Main);
    let mut swarm = Swarm::new();
    swarm.spawn(Vector3::new(10_000, 0, 0));
    swarm.spawn(Vector3::new(12_000, 0, 0));
    swarm.spawn(Vector3::new(0, 0, 0));
    swarm.members[2].active = false;
    let mut point = Some(PlayerInfluenceRadius { position: Vector3::zero(), base_radius: 500 });
    swarm_tick(&machine, &mut point, &mut swarm);
    // The point is at the mean of the two playable marbles, and its radius is
    // that of two active marbles: 0.5 + 0.3 * 3 = 1.4.
    assert_eq!(point.unwrap().position, Vector3::new(11_000, 0, 0));
    assert!(swarm.members[0].active && swarm.members[1].active);
    assert!(!swarm.members[2].active);
    swarm.members[1].position = Vector3::new(12_401, 0, 0);
    swarm.members[0].position = Vector3::new(10_001, 0, 0);
    swarm_tick(&machine, &mut point, &mut swarm);
    assert_eq!(point.unwrap().position, Vector3::new(11_201, 0, 0));
    assert!(swarm.members[0].active && swarm.members[1].active);
}

#[test]
fn influence_rests_outside_of_play() {
    let machine = machine_at(GameState::Pause);
    let mut swarm = Swarm::new();
    swarm.spawn(Vector3::new(10_000, 0, 0));
    let before = swarm.members.clone();
    let mut point = Some(PlayerInfluenceRadius { position: Vector3::zero(), base_radius: 500 });
    swarm_tick(&machine, &mut point, &mut swarm);
    assert_eq!(point.unwrap().position, Vector3::zero());
    assert_eq!(swarm.members, before);
}

#[test]
fn camera_is_made_within_its_range() {
    assert_eq!(OrbitCamera::new(7, 250_000).view_angle_normalized(), 250_000);
    assert_eq!(OrbitCamera::new(7, 1_000_001).view_angle_normalized(), 1_000_000);
    assert_eq!(OrbitCamera::new(7, -1).view_angle_normalized(), 0);
    assert_eq!(OrbitCamera::new(-7, 0).yaw(), -7);
}

#[test]
fn score_is_normalized_to_the_goal() {
    assert_eq!(GameManager { goal: 0, current: 0 }.normalized_score(), None);
    assert_eq!(GameManager { goal: 0, current: 3 }.normalized_score(), None);
    assert_eq!(GameManager { goal: 4, current: 0 }.normalized_score(), Some(0));
    assert_eq!(GameManager { goal: 4, current: 1 }.normalized_score(), Some(250));
    assert_eq!(GameManager { goal: 3, current: 2 }.normalized_score(), Some(666));
    assert_eq!(GameManager { goal: 5, current: 6 }.normalized_score(), Some(1200));
    assert_eq!(
        GameManager { goal: 1, current: usize::MAX }.normalized_score(),
        Some(usize::MAX as u128 * 1000)
    );
}
