//! Battle state shared by the combat actors: the hate (enmity) table of an
//! actor, the outbox of battle events that the dispatcher broadcasts, and the
//! AI controller that a battle NPC carries.

use crate::battle_npc::DetectionType;
use crate::npc::Vector3;
use std::collections::HashMap;
use vstd::prelude::*;

verus! {

broadcast use vstd::std_specs::hash::group_hash_axioms;

/// The hate table of an actor: cumulative enmity per attacker id.
#[derive(Debug, Clone)]
pub struct HateContainer {
    pub owner_actor_id: u32,
    pub entries: HashMap<u32, u64>,
}

impl View for HateContainer {
    type V = Map<u32, u64>;

    open spec fn view(&self) -> Map<u32, u64> {
        self.entries@
    }
}

impl HateContainer {
    /// An empty hate table owned by `owner_actor_id`.
    pub fn new(owner_actor_id: u32) -> (r: Self)
        ensures
            r.owner_actor_id == owner_actor_id,
            r@ == Map::<u32, u64>::empty(),
    {
        HateContainer { owner_actor_id, entries: HashMap::new() }
    }

    /// Adds `amount` to the enmity of `target_actor_id`, entering it with 0
    /// first if it had none; the total saturates at `u64::MAX`.
    pub fn update_hate(&mut self, target_actor_id: u32, amount: u32)
        ensures
            final(self).owner_actor_id == old(self).owner_actor_id,
            final(self)@ == old(self)@.insert(
                target_actor_id,
                (if old(self)@.contains_key(target_actor_id) {
                    old(self)@[target_actor_id]
                } else {
                    0
                }).saturating_add(amount as u64),
            ),
    {
        let current = match self.entries.get(&target_actor_id) {
            Some(v) => *v,
            None => 0,
        };
        self.entries.insert(target_actor_id, current.saturating_add(amount as u64));
    }

    /// Forgets the enmity toward `target_actor_id`, or toward everyone when `None`.
    pub fn clear_hate(&mut self, target_actor_id: Option<u32>)
        ensures
            final(self).owner_actor_id == old(self).owner_actor_id,
            final(self)@ == match target_actor_id {
                Some(t) => old(self)@.remove(t),
                None => Map::<u32, u64>::empty(),
            },
    {
        match target_actor_id {
            Some(t) => {
                self.entries.remove(&t);
            },
            None => {
                self.entries.clear();
            },
        }
    }

    /// Whether the table holds no enmity at all.
    pub fn is_empty(&self) -> (r: bool)
        ensures
            r == (self@.dom() == Set::<u32>::empty()),
    {
        let r = self.entries.is_empty();
        proof {
            if !r {
                let k = self@.dom().choose();
                assert(self@.dom().contains(k));
            }
            assert(r ==> self@.dom() =~= Set::<u32>::empty());
        }
        r
    }

    /// Whether the table holds enmity toward `target_actor_id`.
    pub fn has_hate_for(&self, target_actor_id: u32) -> (r: bool)
        ensures
            r == self@.contains_key(target_actor_id),
    {
        self.entries.contains_key(&target_actor_id)
    }
}

/// A battle event for the dispatcher to broadcast.
#[derive(Debug, Clone, Copy, PartialEq, Eq)]
pub enum BattleEvent {
    /// The actor (re)appears, alive.
    Spawn { owner_actor_id: u32 },
    /// The actor died.
    Die { owner_actor_id: u32 },
    /// The actor is to be removed from the zone.
    Despawn { owner_actor_id: u32 },
}

/// Battle events waiting for the dispatcher, oldest first.
#[derive(Debug, Clone)]
pub struct BattleOutbox {
    pub events: Vec<BattleEvent>,
}

impl BattleOutbox {
    /// An empty outbox.
    pub fn new() -> (r: Self)
        ensures
            r.events@ == Seq::<BattleEvent>::empty(),
    {
        BattleOutbox { events: Vec::new() }
    }

    /// Queues `event` after the events already waiting.
    pub fn push(&mut self, event: BattleEvent)
        ensures
            final(self).events@ == old(self).events@.push(event),
    {
        self.events.push(event);
    }
}

/// Which AI drives an NPC.
#[derive(Debug, Clone, Copy, PartialEq, Eq)]
pub enum ControllerKind {
    /// A hostile (or neutral) battle NPC.
    BattleNpc,
    /// A player-side NPC that only joins the content group's fight.
    Ally,
}

/// The combat settings an AI controller reads.
#[derive(Debug, Clone, Copy, PartialEq, Eq)]
pub struct BattleControllerState {
    pub detection_type: DetectionType,
    pub neutral: bool,
    pub level: i16,
    pub spawn_position: Vector3,
}

/// An AI controller attached to an actor.
#[derive(Debug, Clone, Copy, PartialEq, Eq)]
pub struct Controller {
    pub kind: ControllerKind,
    pub owner_actor_id: u32,
    pub battle: BattleControllerState,
}

impl Controller {
    /// A controller of kind `kind` for `owner_actor_id`: no detection, not
    /// neutral, level 0, spawn position at the origin.
    pub fn new(kind: ControllerKind, owner_actor_id: u32) -> (r: Self)
        ensures
            r == (Controller {
                kind,
                owner_actor_id,
                battle: BattleControllerState {
                    detection_type: DetectionType(0),
                    neutral: false,
                    level: 0,
                    spawn_position: Vector3 { x: 0, y: 0, z: 0 },
                },
            }),
    {
        Controller {
            kind,
            owner_actor_id,
            battle: BattleControllerState {
                detection_type: DetectionType(0),
                neutral: false,
                level: 0,
                spawn_position: Vector3::new(0, 0, 0),
            },
        }
    }
}

} // verus!
