//! Game-message opcodes of the battle packets.

use vstd::prelude::*;

verus! {

/// 0x0139 CommandResultX01: one command result.
pub const OP_COMMAND_RESULT_X01: u16 = 0x0139;

/// 0x013A CommandResultX10: a columnar container of command results.
pub const OP_COMMAND_RESULT_X10: u16 = 0x013A;

/// 0x013B CommandResultX18: the larger columnar container of command results.
pub const OP_COMMAND_RESULT_X18: u16 = 0x013B;

/// 0x013C CommandResultX00: a command that hit nothing.
pub const OP_COMMAND_RESULT_X00: u16 = 0x013C;

/// 0x013A BattleActionX10: server-initiated actions, sharing the CommandResultX10 opcode.
pub const OP_BATTLE_ACTION_X10: u16 = 0x013A;

/// 0x013B BattleActionX18: server-initiated actions, sharing the CommandResultX18 opcode.
pub const OP_BATTLE_ACTION_X18: u16 = 0x013B;

/// 0x0195 SetEnmityIndicator: a battle NPC's hate gem.
pub const OP_SET_ENMITY_INDICATOR: u16 = 0x0195;

} // verus!
