//! Powerups: areas that act on the first active marble that touches them,
//! once.

use crate::swarm::{Swarm, SwarmMember};
use vstd::prelude::*;

verus! {

/// How close a marble has to come to a powerup to pick it up.
pub const PICKUP_RADIUS: i32 = 2000;

/// How far from a spawner its new marble appears.
pub const SPAWN_DISTANCE: i32 = 2000;

/// What a powerup does.
#[derive(Clone, Copy, Debug, PartialEq, Eq, Structural)]
pub enum Powerup {
    /// Adds a marble to the swarm.
    Spawner,
}

/// A powerup of the level with the contacts that the collision system
/// reported for it this tick, in the order in which it reported them.
#[derive(Debug)]
pub struct PowerupArea {
    pub kind: Powerup,
    /// Not yet picked up.
    pub active: bool,
    pub colliding: Vec<usize>,
}

/// A powerup that a marble has picked up this tick.
#[derive(Clone, Copy, Debug, PartialEq, Eq, Structural)]
pub struct Pickup {
    /// Index of the powerup.
    pub powerup: usize,
    /// Index of the marble in the swarm.
    pub player: usize,
    pub kind: Powerup,
}

/// Whether contact `player` names an active marble.
pub open spec fn is_active_contact(members: Seq<SwarmMember>, player: usize) -> bool {
    player < members.len() && members[player as int].active
}

/// The first contact of `colliding` that names an active marble.
pub open spec fn first_active_contact(members: Seq<SwarmMember>, colliding: Seq<usize>) -> Option<
    usize,
>
    decreases colliding.len(),
{
    if colliding.len() == 0 {
        None
    } else if is_active_contact(members, colliding[0]) {
        Some(colliding[0])
    } else {
        first_active_contact(members, colliding.drop_first())
    }
}

/// Whether the powerup is picked up this tick: it is active and an active
/// marble touches it.
pub open spec fn picked_up(powerup: PowerupArea, members: Seq<SwarmMember>) -> bool {
    powerup.active && first_active_contact(members, powerup.colliding@) is Some
}

/// The pickups of this tick, in the order of the powerups, where the first
/// of `powerups` has index `first`.
pub open spec fn pickups(powerups: Seq<PowerupArea>, members: Seq<SwarmMember>, first: nat) -> Seq<
    Pickup,
>
    decreases powerups.len(),
{
    if powerups.len() == 0 {
        Seq::empty()
    } else {
        let rest = pickups(powerups.drop_first(), members, first + 1);
        if picked_up(powerups[0], members) {
            seq![
                Pickup {
                    powerup: first as usize,
                    player: first_active_contact(members, powerups[0].colliding@).unwrap(),
                    kind: powerups[0].kind,
                },
            ] + rest
        } else {
            rest
        }
    }
}

/// The first active contact is an active contact with none before it, and
/// there is none exactly if no contact is active.
pub proof fn lemma_first_active_contact(members: Seq<SwarmMember>, colliding: Seq<usize>)
    ensures
        match first_active_contact(members, colliding) {
            Some(player) => exists|k: int|
                0 <= k < colliding.len() && #[trigger] colliding[k] == player && is_active_contact(
                    members,
                    player,
                ) && forall|j: int|
                    0 <= j < k ==> !is_active_contact(members, #[trigger] colliding[j]),
            None => forall|j: int|
                0 <= j < colliding.len() ==> !is_active_contact(members, #[trigger] colliding[j]),
        },
    decreases colliding.len(),
{
    if colliding.len() > 0 {
        if is_active_contact(members, colliding[0]) {
            assert(colliding[0] == colliding[0]);
        } else {
            let rest = colliding.drop_first();
            lemma_first_active_contact(members, rest);
            match first_active_contact(members, rest) {
                Some(player) => {
                    let k = choose|k: int|
                        0 <= k < rest.len() && #[trigger] rest[k] == player && is_active_contact(
                            members,
                            player,
                        ) && forall|j: int|
                            0 <= j < k ==> !is_active_contact(members, #[trigger] rest[j]);
                    assert(colliding[k + 1] == player);
                    assert forall|j: int| 0 <= j < k + 1 implies !is_active_contact(
                        members,
                        #[trigger] colliding[j],
                    ) by {
                        if j > 0 {
                            assert(rest[j - 1] == colliding[j]);
                        }
                    }
                },
                None => {
                    assert forall|j: int| 0 <= j < colliding.len() implies !is_active_contact(
                        members,
                        #[trigger] colliding[j],
                    ) by {
                        if j > 0 {
                            assert(rest[j - 1] == colliding[j]);
                        }
                    }
                },
            }
        }
    }
}

/// The first active marble among the contacts of a powerup.
pub fn colliding_player(swarm: &Swarm, colliding: &Vec<usize>) -> (player: Option<usize>)
    ensures
        player == first_active_contact(swarm@, colliding@),
{
    let mut i: usize = 0;
    assert(colliding@.skip(0) == colliding@);
    while i < colliding.len()
        invariant
            i <= colliding.len(),
            first_active_contact(swarm@, colliding@.skip(i as int)) == first_active_contact(
                swarm@,
                colliding@,
            ),
        decreases colliding.len() - i,
    {
        let player = colliding[i];
        assert(colliding@.skip(i as int)[0] == player);
        assert(colliding@.skip(i as int).drop_first() == colliding@.skip(i + 1));
        if player < swarm.members.len() && swarm.members[player].active {
            return Some(player);
        }
        i += 1;
    }
    None
}

/// Lets every active powerup that an active marble touches be picked up: it
/// is deactivated, and what it does is left to the caller, who gets the
/// pickups in the order of the powerups. The swarm is as it was when the tick
/// began: a marble that a powerup adds picks up nothing in the same tick.
pub fn manage_powerups(powerups: &mut Vec<PowerupArea>, swarm: &Swarm) -> (picked: Vec<Pickup>)
    ensures
        final(powerups)@.len() == old(powerups)@.len(),
        forall|i: int|
            #![trigger final(powerups)@[i]]
            0 <= i < old(powerups)@.len() ==> {
                &&& final(powerups)@[i].kind == old(powerups)@[i].kind
                &&& final(powerups)@[i].colliding == old(powerups)@[i].colliding
                &&& final(powerups)@[i].active == (old(powerups)@[i].active && !picked_up(
                    old(powerups)@[i],
                    swarm@,
                ))
            },
        picked@ == pickups(old(powerups)@, swarm@, 0),
{
    let ghost before = powerups@;
    let mut picked: Vec<Pickup> = Vec::new();
    let mut i: usize = 0;
    assert(before.skip(0) == before);
    while i < powerups.len()
        invariant
            i <= powerups.len(),
            powerups@.len() == before.len(),
            forall|k: int|
                #![trigger powerups@[k]]
                0 <= k < before.len() ==> {
                    &&& powerups@[k].kind == before[k].kind
                    &&& powerups@[k].colliding == before[k].colliding
                    &&& powerups@[k].active == (before[k].active && (k >= i || !picked_up(
                        before[k],
                        swarm@,
                    )))
                },
            picked@ + pickups(before.skip(i as int), swarm@, i as nat) == pickups(
                before,
                swarm@,
                0,
            ),
        decreases powerups.len() - i,
    {
        let ghost rest = pickups(before.skip(i + 1), swarm@, (i + 1) as nat);
        let ghost done = picked@;
        proof {
            assert(before.skip(i as int)[0] == before[i as int]);
            assert(before.skip(i as int).drop_first() == before.skip(i + 1));
        }
        if powerups[i].active {
            match colliding_player(swarm, &powerups[i].colliding) {
                Some(player) => {
                    let pickup = Pickup { powerup: i, player, kind: powerups[i].kind };
                    assert(done + (seq![pickup] + rest) == done.push(pickup) + rest);
                    picked.push(pickup);
                    powerups[i].active = false;
                },
                None => {},
            }
        }
        i += 1;
    }
    picked
}

} // verus!
