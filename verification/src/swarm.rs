//! The swarm: a snapshot of every marble of the current level.
//!
//! A marble is known by its index in the snapshot. The driver of the
//! simulation fills the snapshot before a tick and reads the flags back after
//! it.

use crate::geometry::Vector3;
use vstd::prelude::*;

verus! {

/// One player-controlled marble.
#[derive(Clone, Copy, Debug, PartialEq, Eq, Structural)]
pub struct SwarmMember {
    pub position: Vector3,
    /// Within the influence radius, and so steered by the player.
    pub active: bool,
    /// Consumed by a goal.
    pub scored: bool,
    /// Resting on the environment.
    pub grounded: bool,
    /// Fallen below the floor of the level.
    pub out_of_bounds: bool,
}

impl SwarmMember {
    /// A scored marble is never active.
    pub open spec fn wf(self) -> bool {
        self.scored ==> !self.active
    }

    /// Active and not yet scored: the marbles that the player steers.
    pub open spec fn spec_playable(self) -> bool {
        self.active && !self.scored
    }

    /// Playable and not out of bounds: the marbles that keep a level alive.
    pub open spec fn spec_in_play(self) -> bool {
        self.active && !self.scored && !self.out_of_bounds
    }

    /// This marble once a goal has consumed it.
    pub open spec fn consumed(self) -> SwarmMember {
        SwarmMember { active: false, scored: true, ..self }
    }

    /// A marble as it is spawned: active, and nothing else.
    pub fn new(position: Vector3) -> (member: SwarmMember)
        ensures
            member == (SwarmMember {
                position,
                active: true,
                scored: false,
                grounded: false,
                out_of_bounds: false,
            }),
            member.wf(),
    {
        SwarmMember { position, active: true, scored: false, grounded: false, out_of_bounds: false }
    }

    /// Active and not yet scored.
    #[verifier::when_used_as_spec(spec_playable)]
    pub fn playable(self) -> (playable: bool)
        ensures
            playable == self.spec_playable(),
    {
        self.active && !self.scored
    }

    /// Playable and not out of bounds.
    #[verifier::when_used_as_spec(spec_in_play)]
    pub fn in_play(self) -> (in_play: bool)
        ensures
            in_play == self.spec_in_play(),
    {
        self.active && !self.scored && !self.out_of_bounds
    }
}

/// The predicate of the active marbles.
pub open spec fn is_active() -> spec_fn(SwarmMember) -> bool {
    |member: SwarmMember| member.active
}

/// The predicate of the playable marbles.
pub open spec fn is_playable() -> spec_fn(SwarmMember) -> bool {
    |member: SwarmMember| member.playable()
}

/// The predicate of the marbles in play.
pub open spec fn is_in_play() -> spec_fn(SwarmMember) -> bool {
    |member: SwarmMember| member.in_play()
}

/// How many marbles of `members` are active.
pub open spec fn active_count(members: Seq<SwarmMember>) -> nat {
    members.filter(is_active()).len()
}

/// How many marbles of `members` are playable.
pub open spec fn playable_count(members: Seq<SwarmMember>) -> nat {
    members.filter(is_playable()).len()
}

/// How many marbles of `members` are in play.
pub open spec fn in_play_count(members: Seq<SwarmMember>) -> nat {
    members.filter(is_in_play()).len()
}

/// Every marble of `members` is well formed.
pub open spec fn all_wf(members: Seq<SwarmMember>) -> bool {
    forall|i: int| 0 <= i < members.len() ==> (#[trigger] members[i]).wf()
}

/// A snapshot of the marbles of the current level.
#[derive(Clone, Debug)]
pub struct Swarm {
    pub members: Vec<SwarmMember>,
}

impl View for Swarm {
    type V = Seq<SwarmMember>;

    open spec fn view(&self) -> Seq<SwarmMember> {
        self.members@
    }
}

impl Swarm {
    /// Every marble is well formed.
    pub open spec fn wf(&self) -> bool {
        all_wf(self@)
    }

    /// The swarm without marbles.
    pub fn new() -> (swarm: Swarm)
        ensures
            swarm@ == Seq::<SwarmMember>::empty(),
            swarm.wf(),
    {
        Swarm { members: Vec::new() }
    }

    /// Adds a fresh marble at `position` and returns its index.
    pub fn spawn(&mut self, position: Vector3) -> (index: usize)
        ensures
            final(self)@ == old(self)@.push(
                SwarmMember {
                    position,
                    active: true,
                    scored: false,
                    grounded: false,
                    out_of_bounds: false,
                },
            ),
            index == old(self)@.len(),
            old(self).wf() ==> final(self).wf(),
    {
        let index = self.members.len();
        self.members.push(SwarmMember::new(position));
        index
    }

    /// The number of marbles.
    pub fn len(&self) -> (n: usize)
        ensures
            n == self@.len(),
    {
        self.members.len()
    }

    /// The marble with index `index`, if there is one.
    pub fn get(&self, index: usize) -> (member: Option<SwarmMember>)
        ensures
            member == if index < self@.len() {
                Some(self@[index as int])
            } else {
                None
            },
    {
        if index < self.members.len() {
            Some(self.members[index])
        } else {
            None
        }
    }

    /// The number of active marbles.
    pub fn active_count(&self) -> (n: usize)
        ensures
            n == active_count(self@),
    {
        let mut n: usize = 0;
        let mut i: usize = 0;
        while i < self.members.len()
            invariant
                i <= self.members.len(),
                n <= i,
                n == active_count(self@.take(i as int)),
            decreases self.members.len() - i,
        {
            proof {
                lemma_take_next(self@, i as int);
                self@.take(i as int).lemma_filter_push(self@[i as int], is_active());
            }
            if self.members[i].active {
                n += 1;
            }
            i += 1;
        }
        assert(self@.take(i as int) == self@);
        n
    }

    /// The number of playable marbles.
    pub fn playable_count(&self) -> (n: usize)
        ensures
            n == playable_count(self@),
    {
        let mut n: usize = 0;
        let mut i: usize = 0;
        while i < self.members.len()
            invariant
                i <= self.members.len(),
                n <= i,
                n == playable_count(self@.take(i as int)),
            decreases self.members.len() - i,
        {
            proof {
                lemma_take_next(self@, i as int);
                self@.take(i as int).lemma_filter_push(self@[i as int], is_playable());
            }
            if self.members[i].playable() {
                n += 1;
            }
            i += 1;
        }
        assert(self@.take(i as int) == self@);
        n
    }

    /// The number of marbles in play.
    pub fn in_play_count(&self) -> (n: usize)
        ensures
            n == in_play_count(self@),
    {
        let mut n: usize = 0;
        let mut i: usize = 0;
        while i < self.members.len()
            invariant
                i <= self.members.len(),
                n <= i,
                n == in_play_count(self@.take(i as int)),
            decreases self.members.len() - i,
        {
            proof {
                lemma_take_next(self@, i as int);
                self@.take(i as int).lemma_filter_push(self@[i as int], is_in_play());
            }
            if self.members[i].in_play() {
                n += 1;
            }
            i += 1;
        }
        assert(self@.take(i as int) == self@);
        n
    }
}

/// The first `i + 1` items of a sequence are its first `i` items and the item
/// at `i`.
pub proof fn lemma_take_next<T>(s: Seq<T>, i: int)
    requires
        0 <= i < s.len(),
    ensures
        s.take(i + 1) == s.take(i).push(s[i]),
{
}

} // verus!
