use bevy_blast_ultra::gameplay::gameplay_tick;
use bevy_blast_ultra::geometry::Vector3;
use bevy_blast_ultra::scoring::{
    check_for_loss, deactivate_out_of_bounds_players, manage_goals, score_goal, transition_on_win,
    FloorBounds, ForceTowards, GameManager, GoalArea, ScoredPlayer,
};
use bevy_blast_ultra::state::{GameEvent, GameState, PhaseMachine};
use bevy_blast_ultra::swarm::{Swarm, SwarmMember};

fn playing() -> PhaseMachine {
    let mut machine = PhaseMachine::new();
    assert!(machine.handle(GameEvent::AssetsLoaded));
    machine.apply_pending();
    assert!(machine.handle(GameEvent::LevelSelected { level: 0 }));
    machine.apply_pending();
    assert!(machine.handle(GameEvent::MapSpawned));
    machine.apply_pending();
    assert_eq!(machine.current(), GameState::Main);
    machine
}

fn swarm_of(n: usize) -> Swarm {
    let mut swarm = Swarm::new();
    for i in 0..n {
        swarm.spawn(Vector3::new(i as i32 * 1000, 0, 0));
    }
    swarm
}

#[test]
fn all_active_in_goal_and_win_consumes_all() {
    let mut machine = playing();
    let mut score = Some(GameManager { goal: 5, current: 3 });
    let mut swarm = swarm_of(3);
    let goals = vec![GoalArea { colliding: vec![0, 1, 2] }];
    let scored = gameplay_tick(&mut machine, &mut score, &mut swarm, &goals, None);
    assert_eq!(scored.len(), 3);
    assert_eq!(score, Some(GameManager { goal: 5, current: 6 }));
    assert!(swarm.members.iter().all(|m| m.scored && !m.active));
    assert_eq!(machine.pending(), Some(GameState::Post { win: true }));
    assert_eq!(machine.current(), GameState::Main);
    machine.apply_pending();
    assert_eq!(machine.current(), GameState::Post { win: true });
}

#[test]
fn all_active_in_goal_without_win_holds_one_back() {
    let mut machine = playing();
    let mut score = Some(GameManager { goal: 10, current: 3 });
    let mut swarm = swarm_of(3);
    let goals = vec![GoalArea { colliding: vec![2, 0, 1] }];
    let scored = gameplay_tick(&mut machine, &mut score, &mut swarm, &goals, None);
    assert_eq!(scored.iter().map(|s| s.player).collect::<Vec<_>>(), vec![0, 1]);
    assert_eq!(score, Some(GameManager { goal: 10, current: 5 }));
    assert!(swarm.members[2].active && !swarm.members[2].scored);
    assert_eq!(swarm.playable_count(), 1);
    assert_eq!(machine.pending(), None);
}

#[test]
fn last_marble_out_of_bounds_is_a_loss() {
    let mut machine = playing();
    let mut score = Some(GameManager { goal: 4, current: 0 });
    let mut swarm = Swarm::new();
    swarm.spawn(Vector3::new(0, 0, -5000));
    let goals = vec![];
    let floor = Some(FloorBounds { height: -1000 });
    gameplay_tick(&mut machine, &mut score, &mut swarm, &goals, floor);
    assert!(swarm.members[0].out_of_bounds && !swarm.members[0].active);
    assert_eq!(machine.pending(), Some(GameState::Post { win: false }));
}

#[test]
fn one_of_two_out_of_bounds_is_no_loss() {
    let mut machine = playing();
    let mut score = Some(GameManager { goal: 4, current: 0 });
    let mut swarm = Swarm::new();
    swarm.spawn(Vector3::new(0, 0, -5000));
    swarm.spawn(Vector3::new(0, 0, 500));
    let goals = vec![];
    let floor = Some(FloorBounds { height: -1000 });
    gameplay_tick(&mut machine, &mut score, &mut swarm, &goals, floor);
    assert!(swarm.members[0].out_of_bounds);
    assert!(!swarm.members[1].out_of_bounds && swarm.members[1].active);
    assert_eq!(machine.pending(), None);
}

#[test]
fn score_never_decreases_over_ticks() {
    let mut machine = playing();
    let mut score = Some(GameManager::new(4));
    let mut swarm = swarm_of(5);
    let contacts: [Vec<usize>; 5] = [vec![], vec![3], vec![3, 3], vec![9, 1], vec![0, 2, 4]];
    let mut last = 0;
    for colliding in contacts {
        let goals = vec![GoalArea { colliding }];
        gameplay_tick(&mut machine, &mut score, &mut swarm, &goals, None);
        let now = score.unwrap();
        assert!(now.current >= last);
        assert_eq!(now.goal, 4);
        last = now.current;
    }
    assert_eq!(last, 5);
    assert_eq!(machine.pending(), Some(GameState::Post { win: true }));
}

#[test]
fn candidates_that_fit_keep_the_score_within_the_goal() {
    let mut machine = playing();
    let mut score = Some(GameManager { goal: 5, current: 3 });
    let mut swarm = swarm_of(4);
    let goals = vec![GoalArea { colliding: vec![1, 2] }];
    gameplay_tick(&mut machine, &mut score, &mut swarm, &goals, None);
    assert_eq!(score, Some(GameManager { goal: 5, current: 5 }));
    assert_eq!(machine.pending(), Some(GameState::Post { win: true }));
}

#[test]
fn without_a_score_nothing_is_consumed() {
    let mut machine = playing();
    let mut score = None;
    let mut swarm = swarm_of(2);
    let goals = vec![GoalArea { colliding: vec![0, 1] }];
    let scored = gameplay_tick(&mut machine, &mut score, &mut swarm, &goals, None);
    assert!(scored.is_empty());
    assert_eq!(score, None);
    assert!(swarm.members.iter().all(|m| m.active && !m.scored));
    assert_eq!(machine.pending(), None);
}

#[test]
fn without_goals_a_met_goal_still_wins() {
    let mut machine = playing();
    let mut score = Some(GameManager::new(0));
    let mut swarm = swarm_of(1);
    let scored = gameplay_tick(&mut machine, &mut score, &mut swarm, &vec![], None);
    assert!(scored.is_empty());
    assert_eq!(score, Some(GameManager { goal: 0, current: 0 }));
    assert_eq!(machine.pending(), Some(GameState::Post { win: true }));
}

#[test]
fn outside_of_play_a_tick_does_nothing() {
    let mut machine = PhaseMachine::new();
    let mut score = Some(GameManager { goal: 1, current: 0 });
    let mut swarm = Swarm::new();
    swarm.spawn(Vector3::new(0, 0, -9000));
    swarm.spawn(Vector3::new(0, 0, 0));
    let goals = vec![GoalArea { colliding: vec![1] }];
    let floor = Some(FloorBounds { height: 0 });
    let scored = gameplay_tick(&mut machine, &mut score, &mut swarm, &goals, floor);
    assert!(scored.is_empty());
    assert_eq!(score, Some(GameManager { goal: 1, current: 0 }));
    assert!(swarm.members.iter().all(|m| m.active && !m.scored && !m.out_of_bounds));
    assert_eq!(machine.pending(), None);
    assert_eq!(machine.current(), GameState::Loading);
}

#[test]
fn held_back_marble_is_the_first_contact() {
    for order in [vec![0, 1, 2], vec![1, 2, 0], vec![2, 1, 0]] {
        let mut score = GameManager { goal: 10, current: 0 };
        let mut swarm = swarm_of(3);
        let goal = GoalArea { colliding: order.clone() };
        let scored = score_goal(&mut score, &mut swarm, &goal, 0);
        let players: Vec<usize> = scored.iter().map(|s| s.player).collect();
        assert_eq!(players, order[1..].to_vec());
        assert!(swarm.members[order[0]].active && !swarm.members[order[0]].scored);
        assert_eq!(score.current, 2);
    }
}

#[test]
fn marbles_elsewhere_let_a_goal_consume_all() {
    let mut score = GameManager { goal: 10, current: 0 };
    let mut swarm = swarm_of(3);
    let goal = GoalArea { colliding: vec![2, 0] };
    let scored = score_goal(&mut score, &mut swarm, &goal, 5);
    assert_eq!(scored.iter().map(|s| s.player).collect::<Vec<_>>(), vec![2, 0]);
    assert_eq!(score.current, 2);
    assert!(swarm.members[1].active && !swarm.members[1].scored);
}

#[test]
fn contacts_that_are_no_unscored_marble_are_ignored() {
    let mut score = GameManager { goal: 10, current: 0 };
    let mut swarm = swarm_of(3);
    swarm.members[0].scored = true;
    swarm.members[0].active = false;
    let goal = GoalArea { colliding: vec![7, 0, 1, 99] };
    let scored = score_goal(&mut score, &mut swarm, &goal, 0);
    assert_eq!(scored.iter().map(|s| s.player).collect::<Vec<_>>(), vec![1]);
    assert_eq!(score.current, 1);
    assert!(swarm.members[2].active);
}

#[test]
fn inactive_candidates_count_like_active_ones() {
    // One inactive marble in the goal, one active marble elsewhere: as many
    // candidates as playable marbles, so the candidate is held back.
    let mut score = GameManager { goal: 10, current: 0 };
    let mut swarm = swarm_of(2);
    swarm.members[0].active = false;
    let goal = GoalArea { colliding: vec![0] };
    let scored = score_goal(&mut score, &mut swarm, &goal, 0);
    assert!(scored.is_empty());
    assert_eq!(score.current, 0);
    assert!(!swarm.members[0].scored);
}

#[test]
fn empty_goal_consumes_nothing() {
    let mut score = GameManager { goal: 10, current: 4 };
    let mut swarm = Swarm::new();
    let goal = GoalArea { colliding: vec![] };
    assert!(score_goal(&mut score, &mut swarm, &goal, 0).is_empty());
    assert_eq!(score, GameManager { goal: 10, current: 4 });
}

#[test]
fn scored_marble_is_released_to_its_goal() {
    let mut score = GameManager { goal: 1, current: 0 };
    let mut swarm = swarm_of(1);
    let goal = GoalArea { colliding: vec![0] };
    let scored = score_goal(&mut score, &mut swarm, &goal, 3);
    assert_eq!(
        scored,
        vec![ScoredPlayer {
            player: 0,
            gravity_scale: 0,
            linear_damping: 800,
            force: ForceTowards { speed: 200, target: 3, offset: Vector3::new(0, 0, 3000) },
        }]
    );
    assert_eq!(swarm.members[0].position, Vector3::new(0, 0, 0));
    assert!(swarm.members[0].scored && !swarm.members[0].active);
}

#[test]
fn goals_are_processed_one_after_the_other() {
    // The second goal sees what the first one left: marble 1 is then the only
    // playable marble, and it is held back.
    let mut score = Some(GameManager { goal: 10, current: 0 });
    let mut swarm = swarm_of(2);
    let goals = vec![
        GoalArea { colliding: vec![0] },
        GoalArea { colliding: vec![1, 0] },
    ];
    let scored = manage_goals(&mut score, &mut swarm, &goals);
    assert_eq!(scored.len(), 1);
    assert_eq!((scored[0].player, scored[0].force.target), (0, 0));
    assert_eq!(score, Some(GameManager { goal: 10, current: 1 }));
    assert!(swarm.members[1].active && !swarm.members[1].scored);
    assert_eq!(swarm.playable_count(), 1);
}

#[test]
fn second_goal_can_finish_the_level() {
    let mut score = Some(GameManager { goal: 2, current: 0 });
    let mut swarm = swarm_of(2);
    let goals = vec![
        GoalArea { colliding: vec![0] },
        GoalArea { colliding: vec![1] },
    ];
    let scored = manage_goals(&mut score, &mut swarm, &goals);
    assert_eq!(
        scored.iter().map(|s| (s.player, s.force.target)).collect::<Vec<_>>(),
        vec![(0, 0), (1, 1)]
    );
    assert_eq!(score, Some(GameManager { goal: 2, current: 2 }));
    assert_eq!(transition_on_win(score), Some(GameState::Post { win: true }));
}

#[test]
fn win_needs_a_score_at_the_goal() {
    assert_eq!(transition_on_win(None), None);
    assert_eq!(transition_on_win(Some(GameManager { goal: 3, current: 2 })), None);
    assert_eq!(
        transition_on_win(Some(GameManager { goal: 3, current: 3 })),
        Some(GameState::Post { win: true })
    );
    assert_eq!(
        transition_on_win(Some(GameManager { goal: 3, current: 4 })),
        Some(GameState::Post { win: true })
    );
    assert!(GameManager { goal: 0, current: 0 }.won());
    assert!(!GameManager::new(1).won());
}

#[test]
fn floor_takes_active_marbles_below_it_only() {
    let mut swarm = Swarm::new();
    swarm.spawn(Vector3::new(0, 0, -1));
    swarm.spawn(Vector3::new(0, 0, 0));
    swarm.spawn(Vector3::new(0, 0, -50));
    swarm.members[2].active = false;
    let newly = deactivate_out_of_bounds_players(&mut swarm, Some(FloorBounds { height: 0 }));
    assert!(newly);
    assert!(swarm.members[0].out_of_bounds && !swarm.members[0].active);
    assert!(!swarm.members[1].out_of_bounds && swarm.members[1].active);
    assert!(!swarm.members[2].out_of_bounds);
    // Out of bounds is for good, and marking it again is nothing new.
    swarm.members[0].active = true;
    let again = deactivate_out_of_bounds_players(&mut swarm, Some(FloorBounds { height: 0 }));
    assert!(!again);
    assert!(swarm.members[0].out_of_bounds && !swarm.members[0].active);
}

#[test]
fn without_a_floor_nothing_falls() {
    let mut swarm = Swarm::new();
    swarm.spawn(Vector3::new(0, 0, i32::MIN));
    assert!(!deactivate_out_of_bounds_players(&mut swarm, None));
    assert!(swarm.members[0].active && !swarm.members[0].out_of_bounds);
}

#[test]
fn loss_needs_a_fresh_fall_and_an_empty_field() {
    let mut swarm = Swarm::new();
    swarm.spawn(Vector3::zero());
    assert_eq!(check_for_loss(&swarm, true), None);
    assert_eq!(check_for_loss(&swarm, false), None);
    swarm.members[0].active = false;
    swarm.members[0].out_of_bounds = true;
    assert_eq!(check_for_loss(&swarm, false), None);
    assert_eq!(check_for_loss(&swarm, true), Some(GameState::Post { win: false }));
    assert_eq!(check_for_loss(&Swarm::new(), true), Some(GameState::Post { win: false }));
}

#[test]
fn loss_in_the_tick_of_a_win_stands() {
    let mut machine = playing();
    let mut score = Some(GameManager { goal: 1, current: 0 });
    let mut swarm = Swarm::new();
    swarm.spawn(Vector3::new(0, 0, 100));
    swarm.spawn(Vector3::new(0, 0, -100));
    let goals = vec![GoalArea { colliding: vec![0] }];
    let floor = Some(FloorBounds { height: 0 });
    gameplay_tick(&mut machine, &mut score, &mut swarm, &goals, floor);
    assert_eq!(score, Some(GameManager { goal: 1, current: 1 }));
    assert_eq!(machine.pending(), Some(GameState::Post { win: false }));
}

#[test]
fn swarm_counts_its_marbles() {
    let mut swarm = swarm_of(4);
    assert_eq!(swarm.spawn(Vector3::new(1, 2, 3)), 4);
    swarm.members[0].active = false;
    swarm.members[1].scored = true;
    swarm.members[2].out_of_bounds = true;
    assert_eq!(swarm.len(), 5);
    assert_eq!(swarm.active_count(), 4);
    assert_eq!(swarm.playable_count(), 3);
    assert_eq!(swarm.in_play_count(), 2);
    assert_eq!(swarm.get(4), Some(SwarmMember::new(Vector3::new(1, 2, 3))));
    assert_eq!(swarm.get(5), None);
    assert!(swarm.members[3].playable() && swarm.members[3].in_play());
    assert!(swarm.members[2].playable() && !swarm.members[2].in_play());
}

#[test]
fn goal_never_takes_the_last_playable_marble_without_a_win() {
    // Every way of putting distinct active marbles of a swarm of three into
    // a goal, at every score short of or at a goal of four.
    let orders: [&[usize]; 16] = [
        &[], &[0], &[1], &[2], &[0, 1], &[1, 0], &[0, 2], &[2, 0], &[1, 2], &[2, 1],
        &[0, 1, 2], &[0, 2, 1], &[1, 0, 2], &[1, 2, 0], &[2, 0, 1], &[2, 1, 0],
    ];
    for order in orders {
        for current in 0..=4 {
            let mut score = GameManager { goal: 4, current };
            let mut swarm = swarm_of(3);
            let goal = GoalArea { colliding: order.to_vec() };
            score_goal(&mut score, &mut swarm, &goal, 0);
            assert!(score.won() || swarm.playable_count() > 0);
            assert!(score.current >= current);
        }
    }
}
