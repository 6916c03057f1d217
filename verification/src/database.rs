//! Rows loaded from the game database.

use vstd::prelude::*;

verus! {

/// A battle-NPC spawn row joined with its pool and genus rows. Positions and
/// rotation are the bit patterns of their `f32` values.
#[derive(Debug, Clone)]
pub struct BattleNpcSpawn {
    pub bnpc_id: u32,
    pub group_id: u32,
    pub position_x: u32,
    pub position_y: u32,
    pub position_z: u32,
    pub rotation: u32,
    pub pool_id: u32,
    pub script_name: String,
    pub min_level: u8,
    pub max_level: u8,
    pub respawn_time: u32,
    pub hp: u32,
    pub mp: u32,
    pub drop_list_id: u32,
    pub allegiance: u8,
    pub spawn_type: u16,
    pub animation_id: u32,
    pub actor_state: u16,
    pub private_area_name: String,
    pub private_area_level: i32,
    pub zone_id: u16,
    pub genus_id: u32,
    pub actor_class_id: u32,
    pub current_job: u8,
    pub combat_skill: u8,
    pub combat_delay: u16,
    pub aggro_type: u8,
    pub speed: u8,
    pub detection: u32,
    pub kindred_id: u8,
    pub kindred_name: String,
}

} // verus!
