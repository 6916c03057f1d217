//! Wire formats and combat-state logic of a game map server: the subpacket
//! framing layer, the battle-result packet builders and the battle NPC state.

pub mod actor_battle;
pub mod battle;
pub mod battle_npc;
pub mod database;
pub mod mob_modifier;
pub mod modifier;
pub mod npc;
pub mod opcodes;
pub mod subpacket;
pub mod time;
pub mod wire;
