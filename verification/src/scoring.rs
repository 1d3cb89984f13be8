//! The scoring engine: goals consume marbles, and a tie-break keeps a level
//! playable.
//!
//! A goal consumes the unscored marbles that touch it. Where their number
//! equals the number of playable marbles, consuming all of them would leave
//! nothing to steer: unless the score then reaches the goal, the first of
//! them, in the order in which the contacts were reported, is held back.

use crate::geometry::{Vector3, UNIT};
use crate::state::GameState;
use crate::swarm::{all_wf, in_play_count, is_playable, playable_count, Swarm, SwarmMember};
use vstd::prelude::*;

verus! {

/// Gravity scale of a marble once it has scored.
pub const SCORED_GRAVITY_SCALE: i32 = 0;

/// Linear damping of a marble once it has scored, in thousandths.
pub const SCORED_LINEAR_DAMPING: i32 = 800;

/// Speed at which a scored marble is pulled into its goal, in thousandths.
pub const SCORED_PULL_SPEED: i32 = 200;

/// Height above the goal of the point that scored marbles are pulled to.
pub const SCORED_PULL_HEIGHT: i32 = 3000;

/// The score of the current level.
#[derive(Clone, Copy, Debug, PartialEq, Eq, Structural)]
pub struct GameManager {
    /// The number of marbles that wins the level.
    pub goal: usize,
    /// The number of marbles scored so far.
    pub current: usize,
}

/// The score as numbers without a machine limit.
pub struct Score {
    pub goal: nat,
    pub current: nat,
}

impl View for GameManager {
    type V = Score;

    open spec fn view(&self) -> Score {
        Score { goal: self.goal as nat, current: self.current as nat }
    }
}

impl Score {
    /// Whether the score has reached the goal.
    pub open spec fn won(self) -> bool {
        self.current >= self.goal
    }
}

/// The score that `game_manager` holds, if there is one.
pub open spec fn score_of(game_manager: Option<GameManager>) -> Option<Score> {
    match game_manager {
        Some(game_manager) => Some(game_manager@),
        None => None,
    }
}

/// A goal sensor with the contacts that the collision system reported for it
/// this tick, in the order in which it reported them. A contact is an index
/// into the swarm; one that names no marble is ignored.
#[derive(Debug)]
pub struct GoalArea {
    pub colliding: Vec<usize>,
}

/// A request to pull a body towards a point: `offset` from the position of
/// the goal with index `target`, at `speed`.
#[derive(Clone, Copy, Debug, PartialEq, Eq, Structural)]
pub struct ForceTowards {
    pub speed: i32,
    pub target: usize,
    pub offset: Vector3,
}

/// What the physics collaborator is told of a marble that has just scored.
#[derive(Clone, Copy, Debug, PartialEq, Eq, Structural)]
pub struct ScoredPlayer {
    /// Index of the marble in the swarm.
    pub player: usize,
    pub gravity_scale: i32,
    pub linear_damping: i32,
    pub force: ForceTowards,
}

/// The floor of the level: a marble below `height` is out of bounds.
#[derive(Clone, Copy, Debug, PartialEq, Eq, Structural)]
pub struct FloorBounds {
    pub height: i32,
}

/// The request that goes out for marble `player` when goal `target` consumes
/// it.
pub open spec fn scored_player(player: usize, target: usize) -> ScoredPlayer {
    ScoredPlayer {
        player,
        gravity_scale: SCORED_GRAVITY_SCALE,
        linear_damping: SCORED_LINEAR_DAMPING,
        force: ForceTowards {
            speed: SCORED_PULL_SPEED,
            target,
            offset: Vector3 { x: 0, y: 0, z: SCORED_PULL_HEIGHT },
        },
    }
}

/// Whether contact `player` names a marble that has not scored yet.
pub open spec fn is_candidate(members: Seq<SwarmMember>, player: usize) -> bool {
    player < members.len() && !members[player as int].scored
}

/// The predicate of the contacts that a goal may consume.
pub open spec fn candidate_of(members: Seq<SwarmMember>) -> spec_fn(usize) -> bool {
    |player: usize| is_candidate(members, player)
}

/// The unscored marbles among the contacts of a goal, in contact order.
pub open spec fn candidates(members: Seq<SwarmMember>, colliding: Seq<usize>) -> Seq<usize> {
    colliding.filter(candidate_of(members))
}

/// How many candidates a goal holds back: one, where as many marbles are in
/// the goal as are playable and consuming them all would not win; else none.
pub open spec fn players_to_skip(score: Score, in_goal: nat, playable: nat) -> nat {
    if in_goal == playable && score.current + in_goal < score.goal {
        1
    } else {
        0
    }
}

/// The marbles that a goal with contacts `colliding` consumes, in contact
/// order: its candidates but those held back.
pub open spec fn consumed(
    score: Score,
    members: Seq<SwarmMember>,
    colliding: Seq<usize>,
) -> Seq<usize> {
    let in_goal = candidates(members, colliding);
    let skip = players_to_skip(score, in_goal.len(), playable_count(members));
    if skip >= in_goal.len() {
        Seq::empty()
    } else {
        in_goal.skip(skip as int)
    }
}

/// Whether `players` names the marble with index `index`.
pub open spec fn names(players: Seq<usize>, index: int) -> bool {
    exists|k: int| 0 <= k < players.len() && #[trigger] players[k] == index
}

/// The swarm once the marbles that `players` names have been consumed.
pub open spec fn scored_by(members: Seq<SwarmMember>, players: Seq<usize>) -> Seq<SwarmMember> {
    Seq::new(
        members.len(),
        |i: int|
            if names(players, i) {
                members[i].consumed()
            } else {
                members[i]
            },
    )
}

/// The score once a goal has consumed `count` marbles.
pub open spec fn credited(score: Score, count: nat) -> Score {
    Score { current: score.current + count, ..score }
}

/// Score and swarm once a goal with contacts `colliding` has been processed.
pub open spec fn after_goal(
    score: Score,
    members: Seq<SwarmMember>,
    colliding: Seq<usize>,
) -> (Score, Seq<SwarmMember>) {
    let players = consumed(score, members, colliding);
    (credited(score, players.len()), scored_by(members, players))
}

/// The requests that go out when goal `target` with contacts `colliding` is
/// processed: one for each marble it consumes, in contact order.
pub open spec fn scored_in_goal(
    score: Score,
    members: Seq<SwarmMember>,
    colliding: Seq<usize>,
    target: usize,
) -> Seq<ScoredPlayer> {
    consumed(score, members, colliding).map_values(
        |player: usize| scored_player(player, target),
    )
}

/// Score and swarm once the goals have been processed one after the other,
/// each on what the one before it left.
pub open spec fn after_goals(
    score: Score,
    members: Seq<SwarmMember>,
    goals: Seq<GoalArea>,
) -> (Score, Seq<SwarmMember>)
    decreases goals.len(),
{
    if goals.len() == 0 {
        (score, members)
    } else {
        let (next_score, next_members) = after_goal(score, members, goals[0].colliding@);
        after_goals(next_score, next_members, goals.drop_first())
    }
}

/// The requests that go out when the goals are processed one after the other,
/// where the first of `goals` has index `first`.
pub open spec fn scored_in_goals(
    score: Score,
    members: Seq<SwarmMember>,
    goals: Seq<GoalArea>,
    first: nat,
) -> Seq<ScoredPlayer>
    decreases goals.len(),
{
    if goals.len() == 0 {
        Seq::empty()
    } else {
        let (next_score, next_members) = after_goal(score, members, goals[0].colliding@);
        scored_in_goal(score, members, goals[0].colliding@, first as usize) + scored_in_goals(
            next_score,
            next_members,
            goals.drop_first(),
            first + 1,
        )
    }
}

/// The number of contacts of all goals together.
pub open spec fn total_colliding(goals: Seq<GoalArea>) -> nat
    decreases goals.len(),
{
    if goals.len() == 0 {
        0
    } else {
        goals[0].colliding@.len() + total_colliding(goals.drop_first())
    }
}

/// Consuming one more marble changes that marble alone.
proof fn lemma_scored_by_push(members: Seq<SwarmMember>, players: Seq<usize>, player: usize)
    requires
        player < members.len(),
    ensures
        scored_by(members, players.push(player)) == scored_by(members, players).update(
            player as int,
            members[player as int].consumed(),
        ),
        scored_by(members, players)[player as int].consumed() == members[player as int].consumed(),
{
    let more = players.push(player);
    assert(more[players.len() as int] == player);
    assert forall|i: int| 0 <= i < members.len() implies names(more, i) == (names(players, i) || i
        == player) by {
        if names(players, i) {
            let k = choose|k: int| 0 <= k < players.len() && #[trigger] players[k] == i;
            assert(more[k] == i);
        }
        if names(more, i) {
            let k = choose|k: int| 0 <= k < more.len() && #[trigger] more[k] == i;
            if k < players.len() {
                assert(players[k] == i);
            }
        }
    }
    assert(scored_by(members, more) =~= scored_by(members, players).update(
        player as int,
        members[player as int].consumed(),
    ));
}

/// Nothing consumed, nothing changed.
proof fn lemma_scored_by_none(members: Seq<SwarmMember>)
    ensures
        scored_by(members, Seq::empty()) == members,
{
    assert(scored_by(members, Seq::empty()) =~= members);
}

impl GameManager {
    /// Whether the score has reached the goal.
    pub open spec fn spec_won(&self) -> bool {
        self@.won()
    }

    /// The share of the goal that has been scored, in thousandths and
    /// rounded down; none where the goal is zero.
    pub open spec fn spec_normalized_score(&self) -> Option<u128> {
        if self.goal == 0 {
            None
        } else {
            Some(((self.current * UNIT) / (self.goal as int)) as u128)
        }
    }

    /// The score of a level that has just been loaded.
    pub fn new(goal: usize) -> (game_manager: GameManager)
        ensures
            game_manager == (GameManager { goal, current: 0 }),
    {
        GameManager { goal, current: 0 }
    }

    /// The share of the goal that has been scored, in thousandths and
    /// rounded down; none where the goal is zero.
    #[verifier::when_used_as_spec(spec_normalized_score)]
    pub fn normalized_score(&self) -> (share: Option<u128>)
        ensures
            share == self.spec_normalized_score(),
    {
        if self.goal == 0 {
            None
        } else {
            Some((self.current as u128 * 1000) / self.goal as u128)
        }
    }

    /// Whether the score has reached the goal.
    #[verifier::when_used_as_spec(spec_won)]
    pub fn won(&self) -> (won: bool)
        ensures
            won == self.spec_won(),
    {
        self.current >= self.goal
    }
}

/// Processes one goal: consumes its candidates but those that the tie-break
/// holds back, credits them to the score, and returns the requests for the
/// physics collaborator, in contact order. `target` is the index of the goal.
pub fn score_goal(
    game_manager: &mut GameManager,
    swarm: &mut Swarm,
    goal: &GoalArea,
    target: usize,
) -> (scored: Vec<ScoredPlayer>)
    requires
        old(game_manager).current + goal.colliding@.len() <= usize::MAX,
    ensures
        (final(game_manager)@, final(swarm)@) == after_goal(
            old(game_manager)@,
            old(swarm)@,
            goal.colliding@,
        ),
        scored@ == scored_in_goal(old(game_manager)@, old(swarm)@, goal.colliding@, target),
        old(swarm).wf() ==> final(swarm).wf(),
{
    let ghost before = swarm@;
    let ghost colliding = goal.colliding@;
    let mut in_goal: Vec<usize> = Vec::new();
    let mut i: usize = 0;
    while i < goal.colliding.len()
        invariant
            i <= goal.colliding.len(),
            colliding == goal.colliding@,
            before == swarm@,
            in_goal@ == candidates(before, colliding.take(i as int)),
        decreases goal.colliding.len() - i,
    {
        let player = goal.colliding[i];
        proof {
            crate::swarm::lemma_take_next(colliding, i as int);
            colliding.take(i as int).lemma_filter_push(player, candidate_of(before));
        }
        if player < swarm.members.len() && !swarm.members[player].scored {
            in_goal.push(player);
        }
        i += 1;
    }
    assert(colliding.take(i as int) == colliding);
    proof {
        colliding.lemma_filter_len(candidate_of(before));
    }
    let playable = swarm.playable_count();
    let skip: usize = if in_goal.len() == playable && game_manager.current + in_goal.len()
        < game_manager.goal {
        1
    } else {
        0
    };
    let start: usize = if skip >= in_goal.len() {
        in_goal.len()
    } else {
        skip
    };
    let ghost players = consumed(game_manager@, before, colliding);
    assert(players == in_goal@.subrange(start as int, in_goal@.len() as int));
    let ghost score = *game_manager;
    let mut scored: Vec<ScoredPlayer> = Vec::new();
    let mut j: usize = start;
    proof {
        lemma_scored_by_none(before);
        assert(in_goal@.subrange(start as int, j as int) == Seq::<usize>::empty());
    }
    while j < in_goal.len()
        invariant
            start <= j <= in_goal.len(),
            in_goal@ == candidates(before, colliding),
            in_goal@.len() <= colliding.len(),
            score.current + colliding.len() <= usize::MAX,
            swarm@ == scored_by(before, in_goal@.subrange(start as int, j as int)),
            game_manager.goal == score.goal,
            game_manager.current == score.current + (j - start),
            scored@ == in_goal@.subrange(start as int, j as int).map_values(
                |player: usize| scored_player(player, target),
            ),
        decreases in_goal.len() - j,
    {
        let player = in_goal[j];
        proof {
            colliding.lemma_filter_pred(candidate_of(before), j as int);
            lemma_scored_by_push(before, in_goal@.subrange(start as int, j as int), player);
            assert(in_goal@.subrange(start as int, j + 1) == in_goal@.subrange(
                start as int,
                j as int,
            ).push(player));
        }
        let mut member = swarm.members[player];
        member.active = false;
        member.scored = true;
        swarm.members.set(player, member);
        game_manager.current += 1;
        scored.push(
            ScoredPlayer {
                player,
                gravity_scale: SCORED_GRAVITY_SCALE,
                linear_damping: SCORED_LINEAR_DAMPING,
                force: ForceTowards {
                    speed: SCORED_PULL_SPEED,
                    target,
                    offset: Vector3 { x: 0, y: 0, z: SCORED_PULL_HEIGHT },
                },
            },
        );
        j += 1;
    }
    proof {
        assert forall|i: int| 0 <= i < before.len() && before[i].wf() implies (
        #[trigger] swarm@[i]).wf() by {
            lemma_goal_marks_consumed(score@, before, colliding, i);
        }
    }
    scored
}

/// A goal consumes no more marbles than it has contacts.
pub proof fn lemma_consumed_len(score: Score, members: Seq<SwarmMember>, colliding: Seq<usize>)
    ensures
        consumed(score, members, colliding).len() <= candidates(members, colliding).len()
            <= colliding.len(),
{
    colliding.lemma_filter_len(candidate_of(members));
}

/// Processing a goal never lowers the score and never changes the goal.
pub proof fn lemma_goal_never_lowers_score(
    score: Score,
    members: Seq<SwarmMember>,
    colliding: Seq<usize>,
)
    ensures
        after_goal(score, members, colliding).0.current >= score.current,
        after_goal(score, members, colliding).0.goal == score.goal,
{
}

/// Processing any number of goals never lowers the score and never changes
/// the goal.
pub proof fn lemma_goals_never_lower_score(
    score: Score,
    members: Seq<SwarmMember>,
    goals: Seq<GoalArea>,
)
    ensures
        after_goals(score, members, goals).0.current >= score.current,
        after_goals(score, members, goals).0.goal == score.goal,
    decreases goals.len(),
{
    if goals.len() > 0 {
        let (next_score, next_members) = after_goal(score, members, goals[0].colliding@);
        lemma_goals_never_lower_score(next_score, next_members, goals.drop_first());
    }
}

/// After a goal has been processed the score is within the goal exactly if
/// score and candidates together were within it before: the tie-break holds
/// a marble back only where that is so anyway, and nothing is cut off.
pub proof fn lemma_goal_keeps_bound(score: Score, members: Seq<SwarmMember>, colliding: Seq<usize>)
    ensures
        after_goal(score, members, colliding).0.current <= score.goal <==> score.current
            + candidates(members, colliding).len() <= score.goal,
{
}

/// Whether each of `goals`, at its turn, finds score and candidates together
/// within the goal.
pub open spec fn within_goal(score: Score, members: Seq<SwarmMember>, goals: Seq<GoalArea>) -> bool
    decreases goals.len(),
{
    if goals.len() == 0 {
        score.current <= score.goal
    } else {
        let (next_score, next_members) = after_goal(score, members, goals[0].colliding@);
        score.current + candidates(members, goals[0].colliding@).len() <= score.goal
            && within_goal(next_score, next_members, goals.drop_first())
    }
}

/// After the goals have been processed the score is within the goal exactly
/// if each goal, at its turn, found score and candidates together within it.
pub proof fn lemma_goals_keep_bound(score: Score, members: Seq<SwarmMember>, goals: Seq<GoalArea>)
    ensures
        after_goals(score, members, goals).0.current <= score.goal <==> within_goal(
            score,
            members,
            goals,
        ),
    decreases goals.len(),
{
    if goals.len() > 0 {
        let (next_score, next_members) = after_goal(score, members, goals[0].colliding@);
        lemma_goal_keeps_bound(score, members, goals[0].colliding@);
        lemma_goals_keep_bound(next_score, next_members, goals.drop_first());
        lemma_goals_never_lower_score(next_score, next_members, goals.drop_first());
    }
}

/// A goal changes no marble but those it consumes, and those it leaves
/// scored and inactive: so a scored marble stays scored, and well-formed
/// marbles stay well formed.
pub proof fn lemma_goal_marks_consumed(
    score: Score,
    members: Seq<SwarmMember>,
    colliding: Seq<usize>,
    index: int,
)
    requires
        0 <= index < members.len(),
    ensures
        after_goal(score, members, colliding).1.len() == members.len(),
        after_goal(score, members, colliding).1[index] == if names(
            consumed(score, members, colliding),
            index,
        ) {
            members[index].consumed()
        } else {
            members[index]
        },
        members[index].scored ==> after_goal(score, members, colliding).1[index].scored,
        members[index].wf() ==> after_goal(score, members, colliding).1[index].wf(),
{
}

/// Goals keep every marble well formed, keep scored marbles scored, and keep
/// the size of the swarm.
pub proof fn lemma_goals_keep_wf(score: Score, members: Seq<SwarmMember>, goals: Seq<GoalArea>)
    ensures
        after_goals(score, members, goals).1.len() == members.len(),
        all_wf(members) ==> all_wf(after_goals(score, members, goals).1),
        forall|i: int|
            0 <= i < members.len() && members[i].scored ==> (#[trigger] after_goals(
                score,
                members,
                goals,
            ).1[i]).scored,
    decreases goals.len(),
{
    if goals.len() > 0 {
        let (next_score, next_members) = after_goal(score, members, goals[0].colliding@);
        lemma_goals_keep_wf(next_score, next_members, goals.drop_first());
        assert forall|i: int| 0 <= i < members.len() implies (members[i].scored
            ==> next_members[i].scored) && (members[i].wf() ==> next_members[i].wf()) by {
            lemma_goal_marks_consumed(score, members, goals[0].colliding@, i);
        }
        assert(all_wf(members) ==> all_wf(next_members));
    }
}

/// Goals change nothing of a marble but whether it is active and scored.
pub proof fn lemma_goals_keep_flags(score: Score, members: Seq<SwarmMember>, goals: Seq<GoalArea>)
    ensures
        after_goals(score, members, goals).1.len() == members.len(),
        forall|i: int|
            #![trigger after_goals(score, members, goals).1[i]]
            0 <= i < members.len() ==> {
                &&& after_goals(score, members, goals).1[i].position == members[i].position
                &&& after_goals(score, members, goals).1[i].grounded == members[i].grounded
                &&& after_goals(score, members, goals).1[i].out_of_bounds
                    == members[i].out_of_bounds
            },
    decreases goals.len(),
{
    if goals.len() > 0 {
        let (next_score, next_members) = after_goal(score, members, goals[0].colliding@);
        lemma_goals_keep_flags(next_score, next_members, goals.drop_first());
        assert forall|i: int| 0 <= i < members.len() implies next_members[i].position
            == members[i].position && next_members[i].grounded == members[i].grounded
            && next_members[i].out_of_bounds == members[i].out_of_bounds by {
            lemma_goal_marks_consumed(score, members, goals[0].colliding@, i);
        }
    }
}

/// The indices of the playable marbles.
pub open spec fn playable_indices(members: Seq<SwarmMember>) -> Set<int> {
    Set::new(|i: int| 0 <= i < members.len() && members[i].playable())
}

/// There are as many playable indices as playable marbles.
proof fn lemma_playable_indices(members: Seq<SwarmMember>)
    ensures
        playable_indices(members).finite(),
        playable_indices(members).len() == playable_count(members),
    decreases members.len(),
{
    if members.len() == 0 {
        assert(playable_indices(members) =~= Set::<int>::empty());
        members.lemma_filter_len(is_playable());
    } else {
        let shorter = members.drop_last();
        lemma_playable_indices(shorter);
        assert(members == shorter.push(members.last()));
        shorter.lemma_filter_push(members.last(), is_playable());
        if members.last().playable() {
            assert(playable_indices(members) =~= playable_indices(shorter).insert(
                members.len() - 1,
            ));
        } else {
            assert(playable_indices(members) =~= playable_indices(shorter));
        }
    }
}

/// What is left of a sequence without duplicates has none.
proof fn lemma_filter_keeps_no_duplicates(contacts: Seq<usize>, keep: spec_fn(usize) -> bool)
    requires
        contacts.no_duplicates(),
    ensures
        contacts.filter(keep).no_duplicates(),
    decreases contacts.len(),
{
    if contacts.len() == 0 {
        contacts.lemma_filter_len(keep);
    } else {
        let shorter = contacts.drop_last();
        let last = contacts.last();
        assert(contacts == shorter.push(last));
        lemma_filter_keeps_no_duplicates(shorter, keep);
        shorter.lemma_filter_push(last, keep);
        if keep(last) {
            let kept = shorter.filter(keep);
            if kept.contains(last) {
                shorter.lemma_filter_contains_rev(keep, last);
                let k = choose|k: int| 0 <= k < shorter.len() && shorter[k] == last;
                assert(contacts[k] == contacts[contacts.len() - 1]);
            }
            assert forall|i: int, j: int|
                0 <= i < kept.len() + 1 && 0 <= j < kept.len() + 1 && i != j implies kept.push(
                last,
            )[i] != kept.push(last)[j] by {
                if i == kept.len() {
                    assert(kept.contains(kept[j]));
                } else if j == kept.len() {
                    assert(kept.contains(kept[i]));
                }
            }
        }
    }
}

/// Where the contacts of a goal name no marble twice and every candidate
/// among them is playable, the goal leaves a playable marble unless it wins
/// the level: it never strands the player.
pub proof fn lemma_goal_leaves_a_playable_marble(
    score: Score,
    members: Seq<SwarmMember>,
    colliding: Seq<usize>,
)
    requires
        colliding.no_duplicates(),
        forall|k: int|
            0 <= k < colliding.len() && is_candidate(members, #[trigger] colliding[k])
                ==> members[colliding[k] as int].active,
        playable_count(members) > 0,
    ensures
        after_goal(score, members, colliding).0.won() || playable_count(
            after_goal(score, members, colliding).1,
        ) > 0,
{
    let in_goal = candidates(members, colliding);
    let players = consumed(score, members, colliding);
    let left = scored_by(members, players);
    let named = Set::new(|i: int| names(in_goal, i));
    let playable = playable_indices(members);
    lemma_filter_keeps_no_duplicates(colliding, candidate_of(members));
    lemma_playable_indices(members);
    let to_int = |player: usize| player as int;
    let indices = in_goal.map_values(to_int);
    assert(vstd::relations::injective(to_int));
    in_goal.lemma_no_duplicates_injective(to_int);
    indices.unique_seq_to_set();
    assert(named =~= indices.to_set()) by {
        assert forall|i: int| named.contains(i) implies indices.to_set().contains(i) by {
            let k = choose|k: int| 0 <= k < in_goal.len() && #[trigger] in_goal[k] == i;
            assert(indices[k] == i);
        }
        assert forall|i: int| indices.to_set().contains(i) implies named.contains(i) by {
            let k = choose|k: int| 0 <= k < indices.len() && indices[k] == i;
            assert(in_goal[k] == i);
        }
    }
    assert(named.subset_of(playable)) by {
        assert forall|i: int| named.contains(i) implies playable.contains(i) by {
            let k = choose|k: int| 0 <= k < in_goal.len() && #[trigger] in_goal[k] == i;
            colliding.lemma_filter_pred(candidate_of(members), k);
            assert(in_goal.contains(in_goal[k]));
            colliding.lemma_filter_contains_rev(candidate_of(members), in_goal[k]);
            let c = choose|c: int| 0 <= c < colliding.len() && colliding[c] == in_goal[k];
            assert(is_candidate(members, colliding[c]));
        }
    }
    vstd::set_lib::lemma_len_subset(named, playable);
    let skip = players_to_skip(score, in_goal.len(), playable_count(members));
    if !after_goal(score, members, colliding).0.won() {
        let spared: int = if in_goal.len() == playable_count(members) {
            // All playable marbles are in the goal and one is held back.
            assert(skip == 1);
            assert(names(in_goal, in_goal[0] as int));
            assert(playable.contains(in_goal[0] as int));
            if names(players, in_goal[0] as int) {
                let k = choose|k: int|
                    0 <= k < players.len() && #[trigger] players[k] == in_goal[0];
                assert(players[k] == in_goal[k + 1]);
            }
            in_goal[0] as int
        } else {
            // Some playable marble is not in the goal.
            if forall|i: int| playable.contains(i) ==> named.contains(i) {
                assert(playable =~= named);
            }
            let i = choose|i: int| playable.contains(i) && !named.contains(i);
            if names(players, i) {
                let k = choose|k: int| 0 <= k < players.len() && #[trigger] players[k] == i;
                assert(in_goal[k + skip] == i);
            }
            i
        };
        assert(left[spared] == members[spared]);
        left.lemma_filter_contains(is_playable(), spared);
    }
}

/// Score and swarm once the goals have been processed. Without a score
/// nothing is consumed.
pub open spec fn after_manage_goals(
    score: Option<Score>,
    members: Seq<SwarmMember>,
    goals: Seq<GoalArea>,
) -> (Option<Score>, Seq<SwarmMember>) {
    match score {
        Some(score) => {
            let (next_score, next_members) = after_goals(score, members, goals);
            (Some(next_score), next_members)
        },
        None => (None, members),
    }
}

/// The requests that go out when the goals are processed. Without a score
/// there are none.
pub open spec fn scored_in_manage_goals(
    score: Option<Score>,
    members: Seq<SwarmMember>,
    goals: Seq<GoalArea>,
) -> Seq<ScoredPlayer> {
    match score {
        Some(score) => scored_in_goals(score, members, goals, 0),
        None => Seq::empty(),
    }
}

/// Processes the goals one after the other, each on the score and the swarm
/// that the one before it left, and returns the requests for the physics
/// collaborator in the order in which the marbles were consumed. Without a
/// score there is nothing to do.
pub fn manage_goals(
    game_manager: &mut Option<GameManager>,
    swarm: &mut Swarm,
    goals: &Vec<GoalArea>,
) -> (scored: Vec<ScoredPlayer>)
    requires
        *old(game_manager) matches Some(start) ==> start.current + total_colliding(goals@)
            <= usize::MAX,
    ensures
        (score_of(*final(game_manager)), final(swarm)@) == after_manage_goals(
            score_of(*old(game_manager)),
            old(swarm)@,
            goals@,
        ),
        scored@ == scored_in_manage_goals(score_of(*old(game_manager)), old(swarm)@, goals@),
        *old(game_manager) matches Some(start) ==> *final(game_manager) matches Some(end)
            && end.goal == start.goal,
        old(swarm).wf() ==> final(swarm).wf(),
{
    let ghost before = swarm@;
    proof {
        if let Some(start) = *game_manager {
            lemma_goals_keep_wf(start@, before, goals@);
        }
    }
    match *game_manager {
        None => Vec::new(),
        Some(start) => {
            let mut score = start;
            let mut scored: Vec<ScoredPlayer> = Vec::new();
            let mut i: usize = 0;
            assert(goals@.skip(0) == goals@);
            while i < goals.len()
                invariant
                    i <= goals.len(),
                    score.current + total_colliding(goals@.skip(i as int)) <= usize::MAX,
                    after_goals(score@, swarm@, goals@.skip(i as int)) == after_goals(
                        start@,
                        before,
                        goals@,
                    ),
                    scored@ + scored_in_goals(score@, swarm@, goals@.skip(i as int), i as nat)
                        == scored_in_goals(start@, before, goals@, 0),
                    score.goal == start.goal,
                decreases goals.len() - i,
            {
                proof {
                    assert(goals@.skip(i as int).drop_first() == goals@.skip(i + 1));
                    assert(goals@.skip(i as int)[0] == goals@[i as int]);
                    lemma_consumed_len(score@, swarm@, goals@[i as int].colliding@);
                }
                let ghost rest = scored_in_goals(
                    after_goal(score@, swarm@, goals@[i as int].colliding@).0,
                    after_goal(score@, swarm@, goals@[i as int].colliding@).1,
                    goals@.skip(i + 1),
                    (i + 1) as nat,
                );
                let ghost done = scored@;
                let mut part = score_goal(&mut score, swarm, &goals[i], i);
                assert(done + (part@ + rest) == (done + part@) + rest);
                scored.append(&mut part);
                i += 1;
            }
            *game_manager = Some(score);
            scored
        },
    }
}

/// The request that a reached goal raises: the level is won as soon as the
/// score is at least the goal. Without a score there is no request.
pub open spec fn win_request(score: Option<Score>) -> Option<GameState> {
    match score {
        Some(score) if score.won() => Some(GameState::Post { win: true }),
        _ => None,
    }
}

/// The request that a reached goal raises.
pub open spec fn spec_transition_on_win(game_manager: Option<GameManager>) -> Option<GameState> {
    win_request(score_of(game_manager))
}

/// The request that a reached goal raises.
#[verifier::when_used_as_spec(spec_transition_on_win)]
pub fn transition_on_win(game_manager: Option<GameManager>) -> (request: Option<GameState>)
    ensures
        request == spec_transition_on_win(game_manager),
{
    match game_manager {
        Some(score) => {
            if score.won() {
                Some(GameState::Post { win: true })
            } else {
                None
            }
        },
        None => None,
    }
}

/// Whether `member` leaves the level through `floor`: only an active marble
/// is watched, and it is out once it is below the floor.
pub open spec fn falls_out(member: SwarmMember, floor: FloorBounds) -> bool {
    member.active && member.position.z < floor.height
}

/// `member` once it has been found out of bounds.
pub open spec fn fallen(member: SwarmMember) -> SwarmMember {
    SwarmMember { active: false, out_of_bounds: true, ..member }
}

/// The swarm once the marbles below the floor have been deactivated and
/// marked. A level without a floor loses no marble.
pub open spec fn after_out_of_bounds(
    members: Seq<SwarmMember>,
    floor: Option<FloorBounds>,
) -> Seq<SwarmMember> {
    match floor {
        Some(floor) => Seq::new(
            members.len(),
            |i: int|
                if falls_out(members[i], floor) {
                    fallen(members[i])
                } else {
                    members[i]
                },
        ),
        None => members,
    }
}

/// Whether some marble goes out of bounds that was not so before.
pub open spec fn newly_out_of_bounds(
    members: Seq<SwarmMember>,
    floor: Option<FloorBounds>,
) -> bool {
    floor matches Some(floor) && exists|i: int|
        0 <= i < members.len() && falls_out(#[trigger] members[i], floor)
            && !members[i].out_of_bounds
}

/// Deactivates the active marbles below the floor and marks them out of
/// bounds, for good. Returns whether a marble went out of bounds that was not
/// so before.
pub fn deactivate_out_of_bounds_players(swarm: &mut Swarm, floor: Option<FloorBounds>) -> (newly:
    bool)
    ensures
        final(swarm)@ == after_out_of_bounds(old(swarm)@, floor),
        newly == newly_out_of_bounds(old(swarm)@, floor),
        old(swarm).wf() ==> final(swarm).wf(),
{
    let ghost before = swarm@;
    match floor {
        None => false,
        Some(bounds) => {
            let mut newly = false;
            let mut i: usize = 0;
            while i < swarm.members.len()
                invariant
                    i <= swarm.members.len(),
                    swarm@.len() == before.len(),
                    forall|k: int|
                        0 <= k < i ==> #[trigger] swarm@[k] == after_out_of_bounds(
                            before,
                            floor,
                        )[k],
                    forall|k: int| i <= k < before.len() ==> #[trigger] swarm@[k] == before[k],
                    newly == newly_out_of_bounds(before.take(i as int), floor),
                    floor == Some(bounds),
                decreases swarm.members.len() - i,
            {
                let member = swarm.members[i];
                let out = member.active && member.position.z < bounds.height;
                proof {
                    let shorter = before.take(i as int);
                    let longer = before.take(i + 1);
                    assert(longer[i as int] == before[i as int]);
                    if newly_out_of_bounds(shorter, floor) {
                        let k = choose|k: int|
                            0 <= k < shorter.len() && falls_out(#[trigger] shorter[k], bounds)
                                && !shorter[k].out_of_bounds;
                        assert(longer[k] == shorter[k]);
                    }
                    if newly_out_of_bounds(longer, floor) {
                        let k = choose|k: int|
                            0 <= k < longer.len() && falls_out(#[trigger] longer[k], bounds)
                                && !longer[k].out_of_bounds;
                        if k < i {
                            assert(shorter[k] == longer[k]);
                        }
                    }
                }
                if out {
                    if !member.out_of_bounds {
                        newly = true;
                    }
                    let mut marked = member;
                    marked.active = false;
                    marked.out_of_bounds = true;
                    swarm.members.set(i, marked);
                }
                i += 1;
            }
            assert(before.take(i as int) == before);
            assert(swarm@ =~= after_out_of_bounds(before, floor));
            newly
        },
    }
}

/// The request that a lost swarm raises: the level is lost when a marble has
/// just gone out of bounds and no marble is left in play.
pub open spec fn loss_request(members: Seq<SwarmMember>, newly: bool) -> Option<GameState> {
    if newly && in_play_count(members) == 0 {
        Some(GameState::Post { win: false })
    } else {
        None
    }
}

/// The request that a lost swarm raises. `newly` says whether a marble went
/// out of bounds this tick.
pub fn check_for_loss(swarm: &Swarm, newly: bool) -> (request: Option<GameState>)
    ensures
        request == loss_request(swarm@, newly),
{
    if newly && swarm.in_play_count() == 0 {
        Some(GameState::Post { win: false })
    } else {
        None
    }
}

} // verus!
