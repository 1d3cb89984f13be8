//! One tick of play, while a level is being played: the influence controller
//! first, then scoring, the win check, the floor and the loss check, in that
//! order.

use crate::influence::{
    after_activation, after_influence, manage_active_players, manage_player_influence,
    PlayerInfluenceRadius,
};
use crate::scoring::{
    after_manage_goals, after_out_of_bounds, check_for_loss, deactivate_out_of_bounds_players,
    lemma_goals_keep_bound, lemma_goals_keep_flags, lemma_goals_keep_wf,
    lemma_goals_never_lower_score, loss_request, manage_goals, newly_out_of_bounds, score_of,
    scored_in_manage_goals, total_colliding, transition_on_win, win_request, within_goal,
    FloorBounds, GameManager, GoalArea, Score, ScoredPlayer,
};
use crate::state::{GameState, PhaseKind, PhaseMachine};
use crate::swarm::{all_wf, Swarm, SwarmMember};
use vstd::prelude::*;

verus! {

/// What a tick of play reads and writes: the current phase and the queued
/// request of the phase machine, the score of the level if it has one, and
/// the swarm.
pub struct Play {
    pub phase: GameState,
    pub pending: Option<GameState>,
    pub score: Option<Score>,
    pub members: Seq<SwarmMember>,
}

/// The queue after `request`: a request replaces what was queued, and no
/// request leaves it.
pub open spec fn queued(pending: Option<GameState>, request: Option<GameState>) -> Option<
    GameState,
> {
    if request is Some {
        request
    } else {
        pending
    }
}

/// What a phase machine and its surroundings hold for a tick of play.
pub open spec fn play_of(
    machine: PhaseMachine,
    game_manager: Option<GameManager>,
    members: Seq<SwarmMember>,
) -> Play {
    Play {
        phase: machine.current(),
        pending: machine.pending(),
        score: score_of(game_manager),
        members,
    }
}

/// The state of play after one tick.
///
/// Outside of [`GameState::Main`] nothing runs. In it, the goals consume
/// marbles; a score that has reached the goal requests the won end of the
/// level; marbles below the floor go out of bounds; and if one has just done
/// so and none is left in play, the lost end of the level is requested. Of
/// the two requests the later one stands.
pub open spec fn after_tick(
    before: Play,
    goals: Seq<GoalArea>,
    floor: Option<FloorBounds>,
) -> Play {
    if before.phase.kind() != PhaseKind::Main {
        before
    } else {
        let (score, scored) = after_manage_goals(before.score, before.members, goals);
        let members = after_out_of_bounds(scored, floor);
        let newly = newly_out_of_bounds(scored, floor);
        let pending = queued(
            queued(before.pending, win_request(score)),
            loss_request(members, newly),
        );
        Play { phase: before.phase, pending, score, members }
    }
}

/// The requests for the physics collaborator that one tick raises.
pub open spec fn scored_in_tick(before: Play, goals: Seq<GoalArea>) -> Seq<ScoredPlayer> {
    if before.phase.kind() != PhaseKind::Main {
        Seq::empty()
    } else {
        scored_in_manage_goals(before.score, before.members, goals)
    }
}

/// Runs one tick of play and returns the requests for the physics
/// collaborator. Phase requests are queued in `machine`; none takes effect
/// before the tick boundary.
pub fn gameplay_tick(
    machine: &mut PhaseMachine,
    game_manager: &mut Option<GameManager>,
    swarm: &mut Swarm,
    goals: &Vec<GoalArea>,
    floor: Option<FloorBounds>,
) -> (scored: Vec<ScoredPlayer>)
    requires
        *old(game_manager) matches Some(start) ==> start.current + total_colliding(goals@)
            <= usize::MAX,
    ensures
        play_of(*final(machine), *final(game_manager), final(swarm)@) == after_tick(
            play_of(*old(machine), *old(game_manager), old(swarm)@),
            goals@,
            floor,
        ),
        scored@ == scored_in_tick(
            play_of(*old(machine), *old(game_manager), old(swarm)@),
            goals@,
        ),
        *old(game_manager) matches Some(start) ==> *final(game_manager) matches Some(end)
            && end.goal == start.goal,
        *old(game_manager) is None ==> *final(game_manager) is None,
        old(swarm).wf() ==> final(swarm).wf(),
{
    if !machine.in_state(GameState::Main) {
        return Vec::new();
    }
    let scored = manage_goals(game_manager, swarm, goals);
    machine.request_if(transition_on_win(*game_manager));
    let newly = deactivate_out_of_bounds_players(swarm, floor);
    machine.request_if(check_for_loss(swarm, newly));
    scored
}

/// Influence point and swarm after one tick of the influence controller:
/// while a level is played the point moves to the mean of the playable
/// marbles, and then the marbles are made active or inactive around the
/// point where it now is, with the radius of the marbles that were active
/// when the tick began.
pub open spec fn after_swarm_tick(
    machine: PhaseMachine,
    influence: Option<PlayerInfluenceRadius>,
    members: Seq<SwarmMember>,
) -> (Option<PlayerInfluenceRadius>, Seq<SwarmMember>) {
    if machine.current().kind() != PhaseKind::Main {
        (influence, members)
    } else {
        let moved = after_influence(influence, members);
        (moved, after_activation(members, moved))
    }
}

/// Runs one tick of the influence controller: the focal point update, then
/// the activation step.
pub fn swarm_tick(
    machine: &PhaseMachine,
    influence: &mut Option<PlayerInfluenceRadius>,
    swarm: &mut Swarm,
)
    ensures
        (*final(influence), final(swarm)@) == after_swarm_tick(
            *machine,
            *old(influence),
            old(swarm)@,
        ),
        old(swarm).wf() ==> final(swarm).wf(),
{
    if machine.in_state(GameState::Main) {
        manage_player_influence(influence, swarm);
        manage_active_players(swarm, *influence);
    }
}

/// What the world hands to one tick: the phase, the queue and the swarm as
/// they are when the tick starts, the goals with their contacts, and the
/// floor. Between two ticks anything but the score may have changed.
pub struct TickInput {
    pub phase: GameState,
    pub pending: Option<GameState>,
    pub members: Seq<SwarmMember>,
    pub goals: Seq<GoalArea>,
    pub floor: Option<FloorBounds>,
}

/// The score after the ticks of `ticks` have run one after the other, each
/// on the score that the one before it left.
pub open spec fn score_after_ticks(score: Option<Score>, ticks: Seq<TickInput>) -> Option<Score>
    decreases ticks.len(),
{
    if ticks.len() == 0 {
        score
    } else {
        let tick = ticks.last();
        after_tick(
            Play {
                phase: tick.phase,
                pending: tick.pending,
                score: score_after_ticks(score, ticks.drop_last()),
                members: tick.members,
            },
            tick.goals,
            tick.floor,
        ).score
    }
}

/// `later` is the score `earlier` with as many or more marbles scored: same
/// goal, and a level without a score stays without one.
pub open spec fn not_lower(earlier: Option<Score>, later: Option<Score>) -> bool {
    match earlier {
        Some(earlier) => later matches Some(later) && later.goal == earlier.goal
            && later.current >= earlier.current,
        None => later is None,
    }
}

/// A tick never lowers the score and never changes the goal.
pub proof fn lemma_tick_never_lowers_score(
    before: Play,
    goals: Seq<GoalArea>,
    floor: Option<FloorBounds>,
)
    ensures
        not_lower(before.score, after_tick(before, goals, floor).score),
{
    if let Some(score) = before.score {
        lemma_goals_never_lower_score(score, before.members, goals);
    }
}

/// Over any sequence of ticks the score never decreases: after more ticks it
/// is not lower than after fewer.
pub proof fn lemma_score_never_decreases(
    score: Option<Score>,
    ticks: Seq<TickInput>,
    fewer: int,
    more: int,
)
    requires
        0 <= fewer <= more <= ticks.len(),
    ensures
        not_lower(
            score_after_ticks(score, ticks.take(fewer)),
            score_after_ticks(score, ticks.take(more)),
        ),
    decreases more - fewer,
{
    if fewer < more {
        lemma_score_never_decreases(score, ticks, fewer, more - 1);
        let tick = ticks[more - 1];
        assert(ticks.take(more).drop_last() == ticks.take(more - 1));
        assert(ticks.take(more).last() == tick);
        lemma_tick_never_lowers_score(
            Play {
                phase: tick.phase,
                pending: tick.pending,
                score: score_after_ticks(score, ticks.take(more - 1)),
                members: tick.members,
            },
            tick.goals,
            tick.floor,
        );
    }
}

/// After a tick of play the score is within the goal exactly if each goal,
/// at its turn, found score and candidates together within it.
pub proof fn lemma_tick_keeps_bound(
    before: Play,
    score: Score,
    goals: Seq<GoalArea>,
    floor: Option<FloorBounds>,
)
    requires
        before.phase.kind() == PhaseKind::Main,
        before.score == Some(score),
    ensures
        after_tick(before, goals, floor).score matches Some(after) && (after.current <= after.goal
            <==> within_goal(score, before.members, goals)),
{
    lemma_goals_keep_bound(score, before.members, goals);
    lemma_goals_never_lower_score(score, before.members, goals);
}

/// A tick keeps every marble well formed, keeps scored marbles scored and
/// marbles out of bounds out of bounds, and keeps the size of the swarm.
pub proof fn lemma_tick_keeps_wf(before: Play, goals: Seq<GoalArea>, floor: Option<FloorBounds>)
    ensures
        after_tick(before, goals, floor).members.len() == before.members.len(),
        all_wf(before.members) ==> all_wf(after_tick(before, goals, floor).members),
        forall|i: int|
            #![trigger after_tick(before, goals, floor).members[i]]
            0 <= i < before.members.len() ==> {
                &&& before.members[i].scored ==> after_tick(before, goals, floor).members[i].scored
                &&& before.members[i].out_of_bounds ==> after_tick(
                    before,
                    goals,
                    floor,
                ).members[i].out_of_bounds
            },
{
    if before.phase.kind() == PhaseKind::Main {
        let (score, scored) = after_manage_goals(before.score, before.members, goals);
        if let Some(start) = before.score {
            lemma_goals_keep_wf(start, before.members, goals);
            lemma_goals_keep_flags(start, before.members, goals);
        }
        let after = after_tick(before, goals, floor).members;
        assert(after == after_out_of_bounds(scored, floor));
        assert forall|i: int| 0 <= i < before.members.len() implies (scored[i].wf()
            ==> after[i].wf()) && (scored[i].scored ==> after[i].scored) && (
        scored[i].out_of_bounds ==> after[i].out_of_bounds) by {}
    }
}

} // verus!
