//! Non-player characters: the actor class they are made from, their position
//! and character state, and the NPC itself.
//!
//! Positions and rotations are `f32` in the game. The library only copies
//! them, so it holds their IEEE-754 bit patterns (`f32::to_bits`).

use crate::battle::{Controller, HateContainer};
use crate::modifier::ModifierMap;
use vstd::prelude::*;

verus! {

/// A position, as the bit patterns of its three `f32` coordinates.
#[derive(Debug, Clone, Copy, PartialEq, Eq, Default)]
pub struct Vector3 {
    pub x: u32,
    pub y: u32,
    pub z: u32,
}

impl Vector3 {
    /// The position with coordinate bits `x`, `y`, `z`.
    pub fn new(x: u32, y: u32, z: u32) -> (r: Self)
        ensures
            r == (Vector3 { x, y, z }),
    {
        Vector3 { x, y, z }
    }
}

/// The class an actor is instantiated from (script path, name, event data).
#[derive(Debug, Clone)]
pub struct ActorClass {
    pub actor_class_id: u32,
    pub class_path: String,
    pub display_name_id: u32,
    pub property_flags: u32,
    pub event_conditions: String,
    pub push_command: u16,
    pub push_command_sub: u16,
    pub push_command_priority: u8,
}

impl ActorClass {
    /// An actor class with the given fields.
    pub fn new(
        actor_class_id: u32,
        class_path: String,
        display_name_id: u32,
        property_flags: u32,
        event_conditions: String,
        push_command: u16,
        push_command_sub: u16,
        push_command_priority: u8,
    ) -> (r: Self)
        ensures
            r == (ActorClass {
                actor_class_id,
                class_path,
                display_name_id,
                property_flags,
                event_conditions,
                push_command,
                push_command_sub,
                push_command_priority,
            }),
    {
        ActorClass {
            actor_class_id,
            class_path,
            display_name_id,
            property_flags,
            event_conditions,
            push_command,
            push_command_sub,
            push_command_priority,
        }
    }
}

/// Where an actor is and what it is doing.
#[derive(Debug, Clone, Copy, PartialEq, Eq)]
pub struct ActorBase {
    pub actor_id: u32,
    pub area_id: u32,
    pub position_x: u32,
    pub position_y: u32,
    pub position_z: u32,
    pub rotation: u32,
    pub actor_state: u16,
    pub animation_id: u32,
}

/// The character-level state: hit points, level, spawn point and stat modifiers.
#[derive(Debug, Clone)]
pub struct CharaState {
    pub hp: i16,
    pub max_hp: i16,
    pub level: i16,
    pub spawn_x: u32,
    pub spawn_y: u32,
    pub spawn_z: u32,
    pub mods: ModifierMap,
}

/// The AI attached to an actor, if any.
#[derive(Debug, Clone)]
pub struct AIContainer {
    pub controller: Option<Controller>,
}

/// A character: its actor state, its character state, its hate table and its AI.
#[derive(Debug, Clone)]
pub struct Character {
    pub base: ActorBase,
    pub chara: CharaState,
    pub hate: HateContainer,
    pub ai_container: AIContainer,
}

/// A non-player character.
#[derive(Debug, Clone)]
pub struct Npc {
    pub actor_number: u32,
    pub actor_class_id: u32,
    pub class_path: String,
    pub display_name_id: u32,
    pub unique_id: String,
    pub custom_display_name: Option<String>,
    pub character: Character,
}

/// The actor id of NPC number `actor_number` in area `area_id`: the NPC
/// marker 4 in the top four bits, the area id from bit 19 up, the number below.
pub open spec fn npc_actor_id(area_id: u32, actor_number: u32) -> u32 {
    (4u32 << 28u32) | (area_id << 19u32) | actor_number
}

impl Npc {
    /// An NPC of class `actor_class` in area `area_id`, at the given position
    /// and rotation bits, with 0 hit points, level 1, its spawn point at its
    /// position, no modifiers, an empty hate table and no AI.
    pub fn new(
        actor_number: u32,
        actor_class: &ActorClass,
        unique_id: String,
        area_id: u32,
        x: u32,
        y: u32,
        z: u32,
        rotation: u32,
        actor_state: u16,
        animation_id: u32,
        custom_display_name: Option<String>,
    ) -> (r: Self)
        ensures
            r.actor_number == actor_number,
            r.actor_class_id == actor_class.actor_class_id,
            r.class_path@ == actor_class.class_path@,
            r.display_name_id == actor_class.display_name_id,
            r.unique_id == unique_id,
            r.custom_display_name == custom_display_name,
            r.character.base == (ActorBase {
                actor_id: npc_actor_id(area_id, actor_number),
                area_id,
                position_x: x,
                position_y: y,
                position_z: z,
                rotation,
                actor_state,
                animation_id,
            }),
            r.character.chara.hp == 0,
            r.character.chara.max_hp == 0,
            r.character.chara.level == 1,
            r.character.chara.spawn_x == x,
            r.character.chara.spawn_y == y,
            r.character.chara.spawn_z == z,
            r.character.chara.mods@ == Map::<u32, u64>::empty(),
            r.character.hate.owner_actor_id == npc_actor_id(area_id, actor_number),
            r.character.hate@ == Map::<u32, u64>::empty(),
            r.character.ai_container.controller is None,
    {
        let actor_id = (4u32 << 28u32) | (area_id << 19u32) | actor_number;
        Npc {
            actor_number,
            actor_class_id: actor_class.actor_class_id,
            class_path: actor_class.class_path.clone(),
            display_name_id: actor_class.display_name_id,
            unique_id,
            custom_display_name,
            character: Character {
                base: ActorBase {
                    actor_id,
                    area_id,
                    position_x: x,
                    position_y: y,
                    position_z: z,
                    rotation,
                    actor_state,
                    animation_id,
                },
                chara: CharaState {
                    hp: 0,
                    max_hp: 0,
                    level: 1,
                    spawn_x: x,
                    spawn_y: y,
                    spawn_z: z,
                    mods: ModifierMap::new(),
                },
                hate: HateContainer::new(actor_id),
                ai_container: AIContainer { controller: None },
            },
        }
    }

    /// The NPC's actor id.
    pub fn actor_id(&self) -> (r: u32)
        ensures
            r == self.character.base.actor_id,
    {
        self.character.base.actor_id
    }
}

} // verus!
