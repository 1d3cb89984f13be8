//! The phase of play and the machine that owns it.
//!
//! The phase is a plain sum type. Routing compares phases by their tag alone
//! ([`GameState::same_kind`]); consumers that need a payload match on the
//! whole value. The machine keeps the current phase and at most one queued
//! request, which takes effect only when [`PhaseMachine::apply_pending`] runs
//! at a tick boundary.

use vstd::prelude::*;

verus! {

/// The phase of play. Exactly one value is current at any time.
///
/// `Post` and `LevelTransition` carry a payload for their consumers. `==` on
/// phases compares payloads too; routing uses [`GameState::same_kind`].
#[derive(Clone, Copy, Debug, PartialEq, Eq, Hash, Structural)]
pub enum GameState {
    /// Assets are being loaded. The initial phase.
    Loading,
    /// The main menu.
    Menu,
    /// A level is being played.
    Main,
    /// Play is suspended.
    Pause,
    /// A level has ended, won or lost.
    Post { win: bool },
    /// The previous level is torn down and level number `level` is spawned.
    LevelTransition { level: usize },
}

/// The tag of a [`GameState`]: the phase without its payload.
#[derive(Clone, Copy, Debug, PartialEq, Eq, Hash, Structural)]
pub enum PhaseKind {
    Loading,
    Menu,
    Main,
    Pause,
    Post,
    LevelTransition,
}

/// What can move the game from one phase to another.
#[derive(Clone, Copy, Debug, PartialEq, Eq, Structural)]
pub enum GameEvent {
    /// Every asset has finished loading.
    AssetsLoaded,
    /// A level was chosen: in the menu, or to restart or continue after a
    /// level has ended.
    LevelSelected { level: usize },
    /// The map of the level in transition has been spawned.
    MapSpawned,
    /// The pause action, during play.
    PauseRequested,
    /// The resume action, while paused.
    ResumeRequested,
    /// The score has reached the goal.
    GoalReached,
    /// Every active marble has fallen out of bounds.
    SwarmLost,
    /// The main menu was chosen after a level has ended.
    MenuSelected,
}

impl GameState {
    /// The tag of this phase.
    pub open spec fn spec_kind(self) -> PhaseKind {
        match self {
            GameState::Loading => PhaseKind::Loading,
            GameState::Menu => PhaseKind::Menu,
            GameState::Main => PhaseKind::Main,
            GameState::Pause => PhaseKind::Pause,
            GameState::Post { .. } => PhaseKind::Post,
            GameState::LevelTransition { .. } => PhaseKind::LevelTransition,
        }
    }

    /// The phase that `event` leads to from this one, if the transition table
    /// has such a row.
    pub open spec fn spec_on_event(self, event: GameEvent) -> Option<GameState> {
        match (self, event) {
            (GameState::Loading, GameEvent::AssetsLoaded) => Some(GameState::Menu),
            (GameState::Menu, GameEvent::LevelSelected { level }) => Some(
                GameState::LevelTransition { level },
            ),
            (GameState::LevelTransition { .. }, GameEvent::MapSpawned) => Some(GameState::Main),
            (GameState::Main, GameEvent::PauseRequested) => Some(GameState::Pause),
            (GameState::Pause, GameEvent::ResumeRequested) => Some(GameState::Main),
            (GameState::Main, GameEvent::GoalReached) => Some(GameState::Post { win: true }),
            (GameState::Main, GameEvent::SwarmLost) => Some(GameState::Post { win: false }),
            (GameState::Post { .. }, GameEvent::LevelSelected { level }) => Some(
                GameState::LevelTransition { level },
            ),
            (GameState::Post { .. }, GameEvent::MenuSelected) => Some(GameState::Menu),
            _ => None,
        }
    }

    /// The tag of this phase.
    #[verifier::when_used_as_spec(spec_kind)]
    pub fn kind(self) -> (k: PhaseKind)
        ensures
            k == self.spec_kind(),
    {
        match self {
            GameState::Loading => PhaseKind::Loading,
            GameState::Menu => PhaseKind::Menu,
            GameState::Main => PhaseKind::Main,
            GameState::Pause => PhaseKind::Pause,
            GameState::Post { .. } => PhaseKind::Post,
            GameState::LevelTransition { .. } => PhaseKind::LevelTransition,
        }
    }

    /// Whether two phases have the same tag, whatever their payloads.
    pub fn same_kind(self, other: GameState) -> (same: bool)
        ensures
            same == (self.kind() == other.kind()),
    {
        self.kind() == other.kind()
    }

    /// A level transition with no particular level: the pattern to route on.
    pub fn level_transition() -> (state: GameState)
        ensures
            state == (GameState::LevelTransition { level: 0 }),
    {
        GameState::LevelTransition { level: 0 }
    }

    /// An ended level with no particular outcome: the pattern to route on.
    pub fn post() -> (state: GameState)
        ensures
            state == (GameState::Post { win: false }),
    {
        GameState::Post { win: false }
    }

    /// The phase that `event` leads to from this one, or `None` where the
    /// transition table has no row for the pair.
    #[verifier::when_used_as_spec(spec_on_event)]
    pub fn on_event(self, event: GameEvent) -> (next: Option<GameState>)
        ensures
            next == self.spec_on_event(event),
    {
        match self {
            GameState::Loading => match event {
                GameEvent::AssetsLoaded => Some(GameState::Menu),
                _ => None,
            },
            GameState::Menu => match event {
                GameEvent::LevelSelected { level } => Some(GameState::LevelTransition { level }),
                _ => None,
            },
            GameState::LevelTransition { .. } => match event {
                GameEvent::MapSpawned => Some(GameState::Main),
                _ => None,
            },
            GameState::Main => match event {
                GameEvent::PauseRequested => Some(GameState::Pause),
                GameEvent::GoalReached => Some(GameState::Post { win: true }),
                GameEvent::SwarmLost => Some(GameState::Post { win: false }),
                _ => None,
            },
            GameState::Pause => match event {
                GameEvent::ResumeRequested => Some(GameState::Main),
                _ => None,
            },
            GameState::Post { .. } => match event {
                GameEvent::LevelSelected { level } => Some(GameState::LevelTransition { level }),
                GameEvent::MenuSelected => Some(GameState::Menu),
                _ => None,
            },
        }
    }
}

impl Default for GameState {
    /// The phase at process start.
    fn default() -> (state: GameState)
        ensures
            state == GameState::Loading,
    {
        GameState::Loading
    }
}

/// The event that the pause action stands for in phase `state`: it pauses
/// play, resumes a paused game, and means nothing elsewhere.
pub open spec fn spec_toggle_pause(state: GameState) -> Option<GameEvent> {
    match state {
        GameState::Main => Some(GameEvent::PauseRequested),
        GameState::Pause => Some(GameEvent::ResumeRequested),
        _ => None,
    }
}

/// The event that the pause action stands for in phase `state`.
#[verifier::when_used_as_spec(spec_toggle_pause)]
pub fn toggle_pause(state: GameState) -> (event: Option<GameEvent>)
    ensures
        event == spec_toggle_pause(state),
{
    match state {
        GameState::Main => Some(GameEvent::PauseRequested),
        GameState::Pause => Some(GameEvent::ResumeRequested),
        _ => None,
    }
}

/// The level that is being played or was played last, as an index into the
/// list of levels.
#[derive(Clone, Copy, Debug, PartialEq, Eq, Structural)]
pub struct CurrentLevelIndex(pub usize);

/// The one choice that the screen after a level offers.
#[derive(Clone, Copy, Debug, PartialEq, Eq, Structural)]
pub enum PostGameChoice {
    /// The level was won and another follows it.
    NextLevel { level: usize },
    /// The last level was won.
    MainMenu,
    /// The level was lost.
    RestartLevel { level: usize },
}

impl PostGameChoice {
    /// The event that taking this choice raises.
    pub open spec fn spec_event(self) -> GameEvent {
        match self {
            PostGameChoice::NextLevel { level } => GameEvent::LevelSelected { level },
            PostGameChoice::MainMenu => GameEvent::MenuSelected,
            PostGameChoice::RestartLevel { level } => GameEvent::LevelSelected { level },
        }
    }

    /// The level index that is current once this choice is taken.
    pub open spec fn spec_level_index(self, current: CurrentLevelIndex) -> CurrentLevelIndex {
        match self {
            PostGameChoice::NextLevel { level } => CurrentLevelIndex(level),
            PostGameChoice::MainMenu => current,
            PostGameChoice::RestartLevel { .. } => current,
        }
    }

    /// The event that taking this choice raises.
    #[verifier::when_used_as_spec(spec_event)]
    pub fn event(self) -> (event: GameEvent)
        ensures
            event == self.spec_event(),
    {
        match self {
            PostGameChoice::NextLevel { level } => GameEvent::LevelSelected { level },
            PostGameChoice::MainMenu => GameEvent::MenuSelected,
            PostGameChoice::RestartLevel { level } => GameEvent::LevelSelected { level },
        }
    }

    /// The level index that is current once this choice is taken.
    #[verifier::when_used_as_spec(spec_level_index)]
    pub fn level_index(self, current: CurrentLevelIndex) -> (index: CurrentLevelIndex)
        ensures
            index == self.spec_level_index(current),
    {
        match self {
            PostGameChoice::NextLevel { level } => CurrentLevelIndex(level),
            PostGameChoice::MainMenu => current,
            PostGameChoice::RestartLevel { .. } => current,
        }
    }
}

/// The choice offered after a level that ended with outcome `win`, where
/// `current` was played and the game has `level_count` levels.
pub open spec fn spec_post_game_choice(
    win: bool,
    current: CurrentLevelIndex,
    level_count: usize,
) -> PostGameChoice {
    if !win {
        PostGameChoice::RestartLevel { level: current.0 }
    } else if current.0 + 1 < level_count {
        PostGameChoice::NextLevel { level: (current.0 + 1) as usize }
    } else {
        PostGameChoice::MainMenu
    }
}

/// The choice offered after a level that ended with outcome `win`.
///
/// A lost level can be restarted, so it has to be one of the game's levels.
#[verifier::when_used_as_spec(spec_post_game_choice)]
pub fn post_game_choice(win: bool, current: CurrentLevelIndex, level_count: usize) -> (choice:
    PostGameChoice)
    requires
        !win ==> current.0 < level_count,
    ensures
        choice == spec_post_game_choice(win, current, level_count),
{
    if !win {
        PostGameChoice::RestartLevel { level: current.0 }
    } else if current.0 < level_count && current.0 + 1 < level_count {
        PostGameChoice::NextLevel { level: current.0 + 1 }
    } else {
        PostGameChoice::MainMenu
    }
}

/// Whether debug drawing is on.
#[derive(Clone, Copy, Debug, PartialEq, Eq, Structural)]
pub enum DebugMode {
    On,
    Off,
}

impl DebugMode {
    /// The other mode.
    pub open spec fn spec_toggled(self) -> DebugMode {
        match self {
            DebugMode::On => DebugMode::Off,
            DebugMode::Off => DebugMode::On,
        }
    }

    /// The other mode: what the debug action switches to.
    #[verifier::when_used_as_spec(spec_toggled)]
    pub fn toggled(self) -> (mode: DebugMode)
        ensures
            mode == self.spec_toggled(),
    {
        match self {
            DebugMode::On => DebugMode::Off,
            DebugMode::Off => DebugMode::On,
        }
    }
}

/// A transition that [`PhaseMachine::apply_pending`] performed.
#[derive(Clone, Copy, Debug, PartialEq, Eq, Structural)]
pub struct Transition {
    pub exited: GameState,
    pub entered: GameState,
}

/// The state machine of the game flow: the current phase and at most one
/// queued request.
#[derive(Clone, Copy, Debug)]
pub struct PhaseMachine {
    current: GameState,
    pending: Option<GameState>,
}

impl PhaseMachine {
    /// The current phase.
    pub closed spec fn spec_current(&self) -> GameState {
        self.current
    }

    /// The queued request, if any.
    pub closed spec fn spec_pending(&self) -> Option<GameState> {
        self.pending
    }

    /// The machine with current phase `current` and queued request `pending`.
    pub closed spec fn of(current: GameState, pending: Option<GameState>) -> PhaseMachine {
        PhaseMachine { current, pending }
    }

    /// The machine after `next` was requested: the request replaces whatever
    /// was queued, and the current phase stays.
    pub open spec fn requested(self, next: GameState) -> PhaseMachine {
        PhaseMachine::of(self.spec_current(), Some(next))
    }

    /// The machine after an optional request: `None` leaves it as it is.
    pub open spec fn requested_if(self, next: Option<GameState>) -> PhaseMachine {
        match next {
            Some(next) => self.requested(next),
            None => self,
        }
    }

    /// The machine after the tick boundary: the queue is empty, and the queued
    /// phase is current if its kind differs from that of the phase before.
    pub open spec fn applied(self) -> PhaseMachine {
        match self.spec_pending() {
            Some(next) if next.kind() != self.spec_current().kind() => PhaseMachine::of(next, None),
            _ => PhaseMachine::of(self.spec_current(), None),
        }
    }

    /// The transition that the tick boundary performs, if any.
    pub open spec fn transition(self) -> Option<Transition> {
        match self.spec_pending() {
            Some(next) if next.kind() != self.spec_current().kind() => Some(
                Transition { exited: self.spec_current(), entered: next },
            ),
            _ => None,
        }
    }

    /// The machine after `event` was handled: the phase it leads to is
    /// requested; an event with no row in the table changes nothing.
    pub open spec fn handled(self, event: GameEvent) -> PhaseMachine {
        match self.spec_current().on_event(event) {
            Some(next) => self.requested(next),
            None => self,
        }
    }

    /// Two machines with the same phase and the same queue are the same.
    pub proof fn lemma_of_parts(self)
        ensures
            self == PhaseMachine::of(self.spec_current(), self.spec_pending()),
            forall|current: GameState, pending: Option<GameState>|
                #![trigger PhaseMachine::of(current, pending)]
                PhaseMachine::of(current, pending).spec_current() == current && PhaseMachine::of(
                    current,
                    pending,
                ).spec_pending() == pending,
    {
    }

    /// The machine at process start: loading, with nothing queued.
    pub fn new() -> (machine: PhaseMachine)
        ensures
            machine == PhaseMachine::of(GameState::Loading, None),
            machine.current() == GameState::Loading,
            machine.pending() == None::<GameState>,
    {
        PhaseMachine { current: GameState::Loading, pending: None }
    }

    /// The current phase.
    #[verifier::when_used_as_spec(spec_current)]
    pub fn current(&self) -> (state: GameState)
        ensures
            state == self.spec_current(),
    {
        self.current
    }

    /// The queued request, if any.
    #[verifier::when_used_as_spec(spec_pending)]
    pub fn pending(&self) -> (state: Option<GameState>)
        ensures
            state == self.spec_pending(),
    {
        self.pending
    }

    /// Whether the current phase has the kind of `state`: the condition under
    /// which the systems of that phase run.
    pub fn in_state(&self, state: GameState) -> (same: bool)
        ensures
            same == (self.current().kind() == state.kind()),
    {
        self.current.same_kind(state)
    }

    /// Queues `next`. Of several requests before a tick boundary the last one
    /// stands. Nothing changes the current phase before the boundary.
    pub fn request(&mut self, next: GameState)
        ensures
            *final(self) == old(self).requested(next),
            final(self).current() == old(self).current(),
            final(self).pending() == Some(next),
    {
        self.pending = Some(next);
    }

    /// Queues `next` if there is one.
    pub fn request_if(&mut self, next: Option<GameState>)
        ensures
            *final(self) == old(self).requested_if(next),
            final(self).current() == old(self).current(),
            final(self).pending() == if next is Some {
                next
            } else {
                old(self).pending()
            },
    {
        match next {
            Some(next) => {
                self.pending = Some(next);
            },
            None => {},
        }
    }

    /// Queues the phase that `event` leads to from the current one, and says
    /// whether the transition table had a row for it.
    pub fn handle(&mut self, event: GameEvent) -> (accepted: bool)
        ensures
            *final(self) == old(self).handled(event),
            accepted == old(self).current().on_event(event).is_some(),
            final(self).current() == old(self).current(),
            final(self).pending() == if accepted {
                old(self).current().on_event(event)
            } else {
                old(self).pending()
            },
    {
        match self.current.on_event(event) {
            Some(next) => {
                self.pending = Some(next);
                true
            },
            None => false,
        }
    }

    /// Takes the queued request at the tick boundary. A request for a phase of
    /// another kind becomes the current phase, and the transition is
    /// returned; a request for a phase of the current kind is dropped,
    /// payload and all.
    pub fn apply_pending(&mut self) -> (transition: Option<Transition>)
        ensures
            *final(self) == old(self).applied(),
            transition == old(self).transition(),
            final(self).pending() == None::<GameState>,
            final(self).current() == match transition {
                Some(transition) => transition.entered,
                None => old(self).current(),
            },
    {
        let taken = self.pending;
        self.pending = None;
        match taken {
            Some(next) => {
                if self.current.same_kind(next) {
                    None
                } else {
                    let exited = self.current;
                    self.current = next;
                    Some(Transition { exited, entered: next })
                }
            },
            None => None,
        }
    }
}

/// Routing ignores payloads, consumers do not: two level transitions are of
/// one kind whatever their levels, and so are two ended levels whatever
/// their outcomes, yet phases with different payloads are different phases.
pub proof fn lemma_same_kind_ignores_payload(
    level: usize,
    other_level: usize,
    win: bool,
    other_win: bool,
)
    ensures
        (GameState::LevelTransition { level }).kind() == (GameState::LevelTransition {
            level: other_level,
        }).kind(),
        (GameState::Post { win }).kind() == (GameState::Post { win: other_win }).kind(),
        level != other_level ==> (GameState::LevelTransition { level })
            != (GameState::LevelTransition { level: other_level }),
        win != other_win ==> (GameState::Post { win }) != (GameState::Post { win: other_win }),
{
}

/// Phases of different variants are of different kinds: the kind is the
/// variant and nothing else.
pub proof fn lemma_kind_is_the_variant(a: GameState, b: GameState)
    ensures
        a.kind() == b.kind() <==> {
            ||| a is Loading && b is Loading
            ||| a is Menu && b is Menu
            ||| a is Main && b is Main
            ||| a is Pause && b is Pause
            ||| a is Post && b is Post
            ||| a is LevelTransition && b is LevelTransition
        },
{
}

/// Every row of the transition table leads to a phase of another kind, so a
/// handled event always changes the phase at the next tick boundary.
pub proof fn lemma_every_row_changes_kind(machine: PhaseMachine, event: GameEvent)
    ensures
        machine.current().on_event(event) matches Some(next) ==> next.kind()
            != machine.current().kind() && machine.handled(event).applied()
            == PhaseMachine::of(next, None),
        machine.current().on_event(event) is None ==> machine.handled(event) == machine,
{
}

/// Requests do not touch the current phase, and of two requests the later
/// one stands: requesting what is already queued changes nothing.
pub proof fn lemma_last_request_stands(machine: PhaseMachine, first: GameState, second: GameState)
    ensures
        machine.requested(first).current() == machine.current(),
        machine.requested(first).pending() == Some(first),
        machine.requested(first).requested(second) == machine.requested(second),
        machine.requested(first).requested(first) == machine.requested(first),
{
}

/// The tick boundary empties the queue; a second boundary without a request
/// in between changes nothing. The phase after it is the queued one if that
/// is of another kind, else the phase before it, payload included.
pub proof fn lemma_boundary_takes_the_request(machine: PhaseMachine)
    ensures
        machine.applied().pending() == None::<GameState>,
        machine.applied().applied() == machine.applied(),
        machine.applied().transition() == None::<Transition>,
        machine.applied().current() == match machine.pending() {
            Some(next) if next.kind() != machine.current().kind() => next,
            _ => machine.current(),
        },
{
}

impl Default for PhaseMachine {
    fn default() -> (machine: PhaseMachine)
        ensures
            machine == PhaseMachine::of(GameState::Loading, None),
            machine.current() == GameState::Loading,
            machine.pending() == None::<GameState>,
    {
        PhaseMachine::new()
    }
}

} // verus!
