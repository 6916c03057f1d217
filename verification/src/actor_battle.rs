//! Battle packets. The client takes combat results in a single-row container
//! (CommandResultX01), in two columnar containers (CommandResultX10 / X18) and
//! in the server-initiated BattleAction containers; the enmity indicator drives
//! a battle NPC's hate gem. Every builder returns a game-message subpacket
//! whose payload is pinned byte for byte by its contract.

use crate::opcodes::{
    OP_BATTLE_ACTION_X10, OP_BATTLE_ACTION_X18, OP_COMMAND_RESULT_X00, OP_COMMAND_RESULT_X01,
    OP_COMMAND_RESULT_X10, OP_COMMAND_RESULT_X18, OP_SET_ENMITY_INDICATOR,
};
use crate::subpacket;
use crate::subpacket::SubPacket;
use crate::wire;
use crate::wire::{write_i32_le, write_u16_le, write_u32_le};
use vstd::prelude::*;

verus! {

/// Sentinel `target_actor_id` for "hate established but not locked onto a
/// specific actor".
pub const NO_ENMITY_TARGET: u32 = 0xE000_0000;

/// `hate_amount` sentinel for "permanently locked".
pub const HATE_AMOUNT_LOCKED: u16 = 0xFFFF;

/// Length of the subpacket and game-message headers that precede a payload.
const HEADERS_SIZE: usize = 0x20;

/// One server-initiated battle action, as the BattleAction containers carry it.
#[derive(Debug, Clone, Default)]
pub struct BattleAction {
    pub target_id: u32,
    pub amount: i32,
    pub amount_mitigated: i32,
    pub effect_id: u32,
    pub param: u32,
    pub animation: u16,
    pub flag: u8,
}

/// One command result (a player-initiated action). Only `target_id`, `amount`,
/// `worldmaster_text_id`, `hit_effect`, `param` and `hit_num` reach the wire.
#[derive(Debug, Clone, Default)]
pub struct CommandResult {
    pub target_id: u32,
    pub hit_num: u8,
    pub sub_command: u8,
    pub hit_effect: u32,
    pub mitigated_amount: u32,
    pub amount: u32,
    pub command_type: u8,
    pub animation_id: u32,
    pub worldmaster_text_id: u16,
    pub param: u32,
    pub action_property: u8,
}

/// `n` zero bytes.
pub open spec fn zeros(n: int) -> Seq<u8> {
    Seq::new(n as nat, |i: int| 0u8)
}

/// The payload of a SetEnmityIndicator: target id, hate amount, two bytes of padding.
pub open spec fn enmity_indicator_bytes(target_actor_id: u32, hate_amount: u16) -> Seq<u8> {
    wire::le32(target_actor_id) + wire::le16(hate_amount) + zeros(2)
}

/// The 0x28-byte header shared by the command-result containers: source actor,
/// animation, 0x18 zero bytes, number of actions, command id and a marker.
pub open spec fn result_header_bytes(
    source_actor_id: u32,
    animation_id: u32,
    num_actions: u32,
    command_id: u16,
    marker: u16,
) -> Seq<u8> {
    wire::le32(source_actor_id) + wire::le32(animation_id) + zeros(0x18) + wire::le32(num_actions)
        + wire::le16(command_id) + wire::le16(marker)
}

/// The payload of a CommandResultX01: the header, then the row (target id,
/// amount as `u16`, text id, hit effect, param as `u8`, hit number), then two
/// zero bytes.
pub open spec fn command_result_x01_bytes(
    actor_id: u32,
    animation_id: u32,
    command_id: u16,
    action: CommandResult,
) -> Seq<u8> {
    result_header_bytes(actor_id, animation_id, 1, command_id, 0x810) + wire::le32(action.target_id)
        + wire::le16(action.amount as u16) + wire::le16(action.worldmaster_text_id) + wire::le32(
        action.hit_effect,
    ) + seq![action.param as u8, action.hit_num] + zeros(2)
}

/// A zero payload for a packet of `packet_size` bytes (headers included).
fn body(packet_size: usize) -> (r: Vec<u8>)
    requires
        packet_size >= HEADERS_SIZE,
    ensures
        r@ == zeros(packet_size - HEADERS_SIZE),
{
    let n = packet_size - HEADERS_SIZE;
    let mut data: Vec<u8> = Vec::new();
    while data.len() < n
        invariant
            data@.len() <= n,
            forall|k: int| 0 <= k < data@.len() ==> data@[k] == 0u8,
        decreases n - data@.len(),
    {
        data.push(0u8);
    }
    assert(data@ =~= zeros(n as int));
    data
}

/// 0x0195 SetEnmityIndicator, sent on behalf of the battle NPC `bnpc_actor_id`
/// (the subpacket's source, which routes the gem to that NPC's nameplate).
pub fn build_set_enmity_indicator(bnpc_actor_id: u32, target_actor_id: u32, hate_amount: u16) -> (r:
    SubPacket)
    ensures
        r@ == subpacket::new_model(
            true,
            OP_SET_ENMITY_INDICATOR,
            bnpc_actor_id,
            enmity_indicator_bytes(target_actor_id, hate_amount),
            r.game_message.timestamp,
        ),
{
    let mut data = body(0x28);
    write_u32_le(data.as_mut_slice(), 0, target_actor_id);
    write_u16_le(data.as_mut_slice(), 4, hate_amount);
    assert(data@ =~= enmity_indicator_bytes(target_actor_id, hate_amount));
    SubPacket::new(OP_SET_ENMITY_INDICATOR, bnpc_actor_id, data)
}

/// Writes the command-result header into the first 0x28 bytes of `buf`, which
/// must be zero (the bytes between the animation and the action count stay so).
fn write_result_header(
    buf: &mut [u8],
    source_actor_id: u32,
    animation_id: u32,
    num_actions: u32,
    command_id: u16,
    marker: u16,
)
    requires
        0x28 <= old(buf)@.len(),
        forall|k: int| 0 <= k < 0x28 ==> old(buf)@[k] == 0u8,
    ensures
        final(buf)@ == wire::splice(
            old(buf)@,
            0,
            result_header_bytes(source_actor_id, animation_id, num_actions, command_id, marker),
        ),
{
    write_u32_le(buf, 0, source_actor_id);
    write_u32_le(buf, 4, animation_id);
    write_u32_le(buf, 0x20, num_actions);
    write_u16_le(buf, 0x24, command_id);
    write_u16_le(buf, 0x26, marker);
    assert(buf@ =~= wire::splice(
        old(buf)@,
        0,
        result_header_bytes(source_actor_id, animation_id, num_actions, command_id, marker),
    ));
}

/// 0x013C CommandResultX00: a command that hit nothing (no actions, and the
/// decimal 810 marker that the client expects in this packet).
pub fn build_command_result_x00(actor_id: u32, animation_id: u32, command_id: u16) -> (r: SubPacket)
    ensures
        r@ == subpacket::new_model(
            true,
            OP_COMMAND_RESULT_X00,
            actor_id,
            result_header_bytes(actor_id, animation_id, 0, command_id, 810),
            r.game_message.timestamp,
        ),
{
    let mut data = body(0x48);
    write_result_header(data.as_mut_slice(), actor_id, animation_id, 0, command_id, 810);
    assert(data@ =~= result_header_bytes(actor_id, animation_id, 0, command_id, 810));
    SubPacket::new(OP_COMMAND_RESULT_X00, actor_id, data)
}

/// 0x0139 CommandResultX01: a command with one result, laid out as a row.
pub fn build_command_result_x01(
    actor_id: u32,
    animation_id: u32,
    command_id: u16,
    action: &CommandResult,
) -> (r: SubPacket)
    ensures
        r@ == subpacket::new_model(
            true,
            OP_COMMAND_RESULT_X01,
            actor_id,
            command_result_x01_bytes(actor_id, animation_id, command_id, *action),
            r.game_message.timestamp,
        ),
{
    let mut data = body(0x58);
    write_result_header(data.as_mut_slice(), actor_id, animation_id, 1, command_id, 0x810);
    write_u32_le(data.as_mut_slice(), 0x28, action.target_id);
    write_u16_le(data.as_mut_slice(), 0x2C, #[verifier::truncate] (action.amount as u16));
    write_u16_le(data.as_mut_slice(), 0x2E, action.worldmaster_text_id);
    write_u32_le(data.as_mut_slice(), 0x30, action.hit_effect);
    data[0x34] = #[verifier::truncate] (action.param as u8);
    data[0x35] = action.hit_num;
    assert(data@ =~= command_result_x01_bytes(actor_id, animation_id, command_id, *action));
    SubPacket::new(OP_COMMAND_RESULT_X01, actor_id, data)
}

/// The byte at `k` of the columns of a command-result container whose
/// columns start at `cols` and hold `counts[c]` entries each, entry `i` of every
/// column coming from `rows[i]`: target ids (4 bytes each), amounts as `u16`,
/// text ids, hit effects (4 bytes each), params as `u8`, hit numbers. Bytes in
/// no column are zero.
pub open spec fn command_result_column_byte(
    rows: Seq<CommandResult>,
    cols: Seq<int>,
    counts: Seq<int>,
    k: int,
) -> u8 {
    if cols[0] <= k < cols[0] + 4 * counts[0] {
        wire::le32(rows[(k - cols[0]) / 4].target_id)[(k - cols[0]) % 4]
    } else if cols[1] <= k < cols[1] + 2 * counts[1] {
        wire::le16(rows[(k - cols[1]) / 2].amount as u16)[(k - cols[1]) % 2]
    } else if cols[2] <= k < cols[2] + 2 * counts[2] {
        wire::le16(rows[(k - cols[2]) / 2].worldmaster_text_id)[(k - cols[2]) % 2]
    } else if cols[3] <= k < cols[3] + 4 * counts[3] {
        wire::le32(rows[(k - cols[3]) / 4].hit_effect)[(k - cols[3]) % 4]
    } else if cols[4] <= k < cols[4] + counts[4] {
        rows[k - cols[4]].param as u8
    } else if cols[5] <= k < cols[5] + counts[5] {
        rows[k - cols[5]].hit_num
    } else {
        0u8
    }
}

/// A command-result container payload of `len` bytes: `header` first, then the
/// columns of `command_result_column_byte`.
pub open spec fn command_result_container_bytes(
    header: Seq<u8>,
    rows: Seq<CommandResult>,
    cols: Seq<int>,
    counts: Seq<int>,
    len: int,
) -> Seq<u8> {
    Seq::new(
        len as nat,
        |k: int|
            if k < header.len() {
                header[k]
            } else {
                command_result_column_byte(rows, cols, counts, k)
            },
    )
}

/// Column counts while column `j` is being filled and has `i` entries:
/// `full` entries in the earlier columns, none in the later ones.
pub open spec fn counts_while_filling(j: int, i: int, full: int) -> Seq<int> {
    Seq::new(6, |c: int| if c < j { full } else if c == j { i } else { 0 })
}

/// The columns of a command-result container do not overlap, hold `cap`
/// entries each, and fit between the header and the end of the payload.
pub open spec fn command_result_columns_fit(cols: Seq<int>, cap: int, len: int) -> bool {
    &&& cols.len() == 6
    &&& 0x28 <= cols[0]
    &&& cols[0] + 4 * cap <= cols[1]
    &&& cols[1] + 2 * cap <= cols[2]
    &&& cols[2] + 2 * cap <= cols[3]
    &&& cols[3] + 4 * cap <= cols[4]
    &&& cols[4] + cap <= cols[5]
    &&& cols[5] + cap <= len
}

/// The number of entries a container with room for `cap` takes from `len`
/// entries starting at `offset`.
pub open spec fn batch_len(len: int, offset: int, cap: int) -> int {
    let remaining = if offset <= len {
        len - offset
    } else {
        0
    };
    if remaining < cap {
        remaining
    } else {
        cap
    }
}

/// `x` lies in entry `i` of a block of `w`-byte entries starting at `c`.
proof fn lemma_entry_index(x: int, c: int, w: int, i: int)
    requires
        0 < w,
        0 <= i,
        c + w * i <= x < c + w * i + w,
    ensures
        (x - c) / w == i,
        (x - c) % w == x - c - w * i,
{
    vstd::arithmetic::mul::lemma_mul_is_commutative(w, i);
    vstd::arithmetic::div_mod::lemma_fundamental_div_mod_converse(x - c, w, i, x - c - w * i);
}

fn batch_size(len: usize, offset: usize, cap: usize) -> (r: usize)
    ensures
        r == batch_len(len as int, offset as int, cap as int),
{
    let remaining = len.saturating_sub(offset);
    if remaining < cap {
        remaining
    } else {
        cap
    }
}

/// The columnar command-result container: takes up to `cap` results from
/// `actions` starting at `*list_offset`, writes each field as its own column
/// starting at `columns`, and moves the offset past the results taken.
fn build_command_result_container(
    actor_id: u32,
    animation_id: u32,
    command_id: u16,
    actions: &[CommandResult],
    list_offset: &mut usize,
    cap: usize,
    opcode: u16,
    packet_size: usize,
    columns: [usize; 6],
) -> (r: SubPacket)
    requires
        *old(list_offset) <= actions@.len(),
        0x48 <= packet_size <= 0x1000,
        command_result_columns_fit(
            columns@.map_values(|c: usize| c as int),
            cap as int,
            packet_size - HEADERS_SIZE,
        ),
    ensures
        ({
            let n = batch_len(actions@.len() as int, *old(list_offset) as int, cap as int);
            &&& *final(list_offset) == *old(list_offset) + n
            &&& r@ == subpacket::new_model(
                true,
                opcode,
                actor_id,
                command_result_container_bytes(
                    result_header_bytes(actor_id, animation_id, n as u32, command_id, 0x810),
                    actions@.subrange(*old(list_offset) as int, *old(list_offset) + n),
                    columns@.map_values(|c: usize| c as int),
                    Seq::new(6, |c: int| n),
                    packet_size - HEADERS_SIZE,
                ),
                r.game_message.timestamp,
            )
        }),
{
    let off = *list_offset;
    let len = packet_size - HEADERS_SIZE;
    let mut data = body(packet_size);
    let max = batch_size(actions.len(), off, cap);
    write_result_header(data.as_mut_slice(), actor_id, animation_id, max as u32, command_id, 0x810);
    let ghost header = result_header_bytes(actor_id, animation_id, max as u32, command_id, 0x810);
    let ghost rows = actions@.subrange(off as int, off + max);
    let ghost cols = columns@.map_values(|c: usize| c as int);
    assert(data@ =~= command_result_container_bytes(
        header,
        rows,
        cols,
        counts_while_filling(0, 0, max as int),
        len as int,
    ));
    let c0 = columns[0];
    let mut i: usize = 0;
    while i < max
        invariant
            i <= max,
            max <= cap,
            off + max <= actions.len(),
            rows == actions@.subrange(off as int, off + max),
            cols == columns@.map_values(|c: usize| c as int),
            c0 == cols[0],
            command_result_columns_fit(cols, cap as int, len as int),
            header.len() == 0x28,
            data@ == command_result_container_bytes(
                header,
                rows,
                cols,
                counts_while_filling(0, i as int, max as int),
                len as int,
            ),
        decreases max - i,
    {
        write_u32_le(data.as_mut_slice(), c0 + 4 * i, actions[off + i].target_id);
        proof {
            let p = c0 + 4 * i;
            assert forall|k: int| 0 <= k < len implies #[trigger] data@[k]
                == command_result_container_bytes(
                header,
                rows,
                cols,
                counts_while_filling(0, i + 1, max as int),
                len as int,
            )[k] by {
                if p <= k < p + 4 {
                    lemma_entry_index(k, cols[0], 4, i as int);
                }
            }
        }
        i = i + 1;
        assert(data@ =~= command_result_container_bytes(
            header,
            rows,
            cols,
            counts_while_filling(0, i as int, max as int),
            len as int,
        ));
    }
    assert(counts_while_filling(0, max as int, max as int) =~= counts_while_filling(
        1,
        0,
        max as int,
    ));
    let c1 = columns[1];
    let mut i: usize = 0;
    while i < max
        invariant
            i <= max,
            max <= cap,
            off + max <= actions.len(),
            rows == actions@.subrange(off as int, off + max),
            cols == columns@.map_values(|c: usize| c as int),
            c1 == cols[1],
            command_result_columns_fit(cols, cap as int, len as int),
            header.len() == 0x28,
            data@ == command_result_container_bytes(
                header,
                rows,
                cols,
                counts_while_filling(1, i as int, max as int),
                len as int,
            ),
        decreases max - i,
    {
        write_u16_le(data.as_mut_slice(), c1 + 2 * i, #[verifier::truncate] (actions[off + i].amount as u16));
        proof {
            let p = c1 + 2 * i;
            assert forall|k: int| 0 <= k < len implies #[trigger] data@[k]
                == command_result_container_bytes(
                header,
                rows,
                cols,
                counts_while_filling(1, i + 1, max as int),
                len as int,
            )[k] by {
                if p <= k < p + 2 {
                    lemma_entry_index(k, cols[1], 2, i as int);
                }
            }
        }
        i = i + 1;
        assert(data@ =~= command_result_container_bytes(
            header,
            rows,
            cols,
            counts_while_filling(1, i as int, max as int),
            len as int,
        ));
    }
    assert(counts_while_filling(1, max as int, max as int) =~= counts_while_filling(
        2,
        0,
        max as int,
    ));
    let c2 = columns[2];
    let mut i: usize = 0;
    while i < max
        invariant
            i <= max,
            max <= cap,
            off + max <= actions.len(),
            rows == actions@.subrange(off as int, off + max),
            cols == columns@.map_values(|c: usize| c as int),
            c2 == cols[2],
            command_result_columns_fit(cols, cap as int, len as int),
            header.len() == 0x28,
            data@ == command_result_container_bytes(
                header,
                rows,
                cols,
                counts_while_filling(2, i as int, max as int),
                len as int,
            ),
        decreases max - i,
    {
        write_u16_le(data.as_mut_slice(), c2 + 2 * i, actions[off + i].worldmaster_text_id);
        proof {
            let p = c2 + 2 * i;
            assert forall|k: int| 0 <= k < len implies #[trigger] data@[k]
                == command_result_container_bytes(
                header,
                rows,
                cols,
                counts_while_filling(2, i + 1, max as int),
                len as int,
            )[k] by {
                if p <= k < p + 2 {
                    lemma_entry_index(k, cols[2], 2, i as int);
                }
            }
        }
        i = i + 1;
        assert(data@ =~= command_result_container_bytes(
            header,
            rows,
            cols,
            counts_while_filling(2, i as int, max as int),
            len as int,
        ));
    }
    assert(counts_while_filling(2, max as int, max as int) =~= counts_while_filling(
        3,
        0,
        max as int,
    ));
    let c3 = columns[3];
    let mut i: usize = 0;
    while i < max
        invariant
            i <= max,
            max <= cap,
            off + max <= actions.len(),
            rows == actions@.subrange(off as int, off + max),
            cols == columns@.map_values(|c: usize| c as int),
            c3 == cols[3],
            command_result_columns_fit(cols, cap as int, len as int),
            header.len() == 0x28,
            data@ == command_result_container_bytes(
                header,
                rows,
                cols,
                counts_while_filling(3, i as int, max as int),
                len as int,
            ),
        decreases max - i,
    {
        write_u32_le(data.as_mut_slice(), c3 + 4 * i, actions[off + i].hit_effect);
        proof {
            let p = c3 + 4 * i;
            assert forall|k: int| 0 <= k < len implies #[trigger] data@[k]
                == command_result_container_bytes(
                header,
                rows,
                cols,
                counts_while_filling(3, i + 1, max as int),
                len as int,
            )[k] by {
                if p <= k < p + 4 {
                    lemma_entry_index(k, cols[3], 4, i as int);
                }
            }
        }
        i = i + 1;
        assert(data@ =~= command_result_container_bytes(
            header,
            rows,
            cols,
            counts_while_filling(3, i as int, max as int),
            len as int,
        ));
    }
    assert(counts_while_filling(3, max as int, max as int) =~= counts_while_filling(
        4,
        0,
        max as int,
    ));
    let c4 = columns[4];
    let mut i: usize = 0;
    while i < max
        invariant
            i <= max,
            max <= cap,
            off + max <= actions.len(),
            rows == actions@.subrange(off as int, off + max),
            cols == columns@.map_values(|c: usize| c as int),
            c4 == cols[4],
            command_result_columns_fit(cols, cap as int, len as int),
            header.len() == 0x28,
            data@ == command_result_container_bytes(
                header,
                rows,
                cols,
                counts_while_filling(4, i as int, max as int),
                len as int,
            ),
        decreases max - i,
    {
        data[c4 + i] = #[verifier::truncate] (actions[off + i].param as u8);
        proof {
            let p = c4 + i;
            assert forall|k: int| 0 <= k < len implies #[trigger] data@[k]
                == command_result_container_bytes(
                header,
                rows,
                cols,
                counts_while_filling(4, i + 1, max as int),
                len as int,
            )[k] by {
            }
        }
        i = i + 1;
        assert(data@ =~= command_result_container_bytes(
            header,
            rows,
            cols,
            counts_while_filling(4, i as int, max as int),
            len as int,
        ));
    }
    assert(counts_while_filling(4, max as int, max as int) =~= counts_while_filling(
        5,
        0,
        max as int,
    ));
    let c5 = columns[5];
    let mut i: usize = 0;
    while i < max
        invariant
            i <= max,
            max <= cap,
            off + max <= actions.len(),
            rows == actions@.subrange(off as int, off + max),
            cols == columns@.map_values(|c: usize| c as int),
            c5 == cols[5],
            command_result_columns_fit(cols, cap as int, len as int),
            header.len() == 0x28,
            data@ == command_result_container_bytes(
                header,
                rows,
                cols,
                counts_while_filling(5, i as int, max as int),
                len as int,
            ),
        decreases max - i,
    {
        data[c5 + i] = actions[off + i].hit_num;
        proof {
            let p = c5 + i;
            assert forall|k: int| 0 <= k < len implies #[trigger] data@[k]
                == command_result_container_bytes(
                header,
                rows,
                cols,
                counts_while_filling(5, i + 1, max as int),
                len as int,
            )[k] by {
            }
        }
        i = i + 1;
        assert(data@ =~= command_result_container_bytes(
            header,
            rows,
            cols,
            counts_while_filling(5, i as int, max as int),
            len as int,
        ));
    }
    assert(counts_while_filling(5, max as int, max as int) =~= Seq::new(6, |c: int| max as int));
    *list_offset = off + max;
    SubPacket::new(opcode, actor_id, data)
}

/// Column starts of CommandResultX10: target ids, amounts, text ids, hit
/// effects, params, hit numbers.
pub open spec fn command_result_x10_columns() -> Seq<int> {
    seq![0x28, 0x50, 0x64, 0x78, 0xA0, 0xAA]
}

/// Column starts of CommandResultX18.
pub open spec fn command_result_x18_columns() -> Seq<int> {
    seq![0x28, 0x70, 0x94, 0xB8, 0x100, 0x112]
}

/// The payload of a columnar command-result container whose columns start at
/// `cols`, carrying `n` results taken from `actions` at `offset`, in a payload
/// of `len` bytes.
pub open spec fn command_result_batch_bytes(
    actor_id: u32,
    animation_id: u32,
    command_id: u16,
    actions: Seq<CommandResult>,
    offset: int,
    n: int,
    cols: Seq<int>,
    len: int,
) -> Seq<u8> {
    command_result_container_bytes(
        result_header_bytes(actor_id, animation_id, n as u32, command_id, 0x810),
        actions.subrange(offset, offset + n),
        cols,
        Seq::new(6, |c: int| n),
        len,
    )
}

/// 0x013A CommandResultX10: takes up to 10 results from `actions` starting at
/// `*list_offset`, lays them out in columns, and moves the offset past them.
pub fn build_command_result_x10(
    actor_id: u32,
    animation_id: u32,
    command_id: u16,
    actions: &[CommandResult],
    list_offset: &mut usize,
) -> (r: SubPacket)
    requires
        *old(list_offset) <= actions@.len(),
    ensures
        ({
            let n = batch_len(actions@.len() as int, *old(list_offset) as int, 10);
            &&& *final(list_offset) == *old(list_offset) + n
            &&& r@ == subpacket::new_model(
                true,
                OP_COMMAND_RESULT_X10,
                actor_id,
                command_result_batch_bytes(
                    actor_id,
                    animation_id,
                    command_id,
                    actions@,
                    *old(list_offset) as int,
                    n,
                    command_result_x10_columns(),
                    0xD8 - 0x20,
                ),
                r.game_message.timestamp,
            )
        }),
{
    let columns: [usize; 6] = [0x28, 0x50, 0x64, 0x78, 0xA0, 0xAA];
    assert(columns@.map_values(|c: usize| c as int) =~= command_result_x10_columns());
    build_command_result_container(
        actor_id,
        animation_id,
        command_id,
        actions,
        list_offset,
        10,
        OP_COMMAND_RESULT_X10,
        0xD8,
        columns,
    )
}

/// 0x013B CommandResultX18: takes up to 18 results from `actions` starting at
/// `*list_offset`, lays them out in columns, and moves the offset past them.
pub fn build_command_result_x18(
    actor_id: u32,
    animation_id: u32,
    command_id: u16,
    actions: &[CommandResult],
    list_offset: &mut usize,
) -> (r: SubPacket)
    requires
        *old(list_offset) <= actions@.len(),
    ensures
        ({
            let n = batch_len(actions@.len() as int, *old(list_offset) as int, 18);
            &&& *final(list_offset) == *old(list_offset) + n
            &&& r@ == subpacket::new_model(
                true,
                OP_COMMAND_RESULT_X18,
                actor_id,
                command_result_batch_bytes(
                    actor_id,
                    animation_id,
                    command_id,
                    actions@,
                    *old(list_offset) as int,
                    n,
                    command_result_x18_columns(),
                    0x148 - 0x20,
                ),
                r.game_message.timestamp,
            )
        }),
{
    let columns: [usize; 6] = [0x28, 0x70, 0x94, 0xB8, 0x100, 0x112];
    assert(columns@.map_values(|c: usize| c as int) =~= command_result_x18_columns());
    build_command_result_container(
        actor_id,
        animation_id,
        command_id,
        actions,
        list_offset,
        18,
        OP_COMMAND_RESULT_X18,
        0x148,
        columns,
    )
}

/// The 24 bytes of one battle action: target id, amount and mitigated amount
/// (two's complement), effect id, param, animation, flag and a zero byte.
pub open spec fn battle_action_entry_bytes(e: BattleAction) -> Seq<u8> {
    wire::le32(e.target_id) + wire::le32(e.amount as u32) + wire::le32(e.amount_mitigated as u32)
        + wire::le32(e.effect_id) + wire::le32(e.param) + wire::le16(e.animation) + seq![e.flag, 0u8]
}

/// The payload of a BattleAction container: source actor, animation, command
/// id and the number `n` of actions (12 bytes), then `n` actions of 24 bytes
/// taken from `actions` at `offset`, then zeros up to `len` bytes.
pub open spec fn battle_action_batch_bytes(
    source_actor_id: u32,
    animation_id: u32,
    command_id: u16,
    actions: Seq<BattleAction>,
    offset: int,
    n: int,
    len: int,
) -> Seq<u8> {
    let header = wire::le32(source_actor_id) + wire::le32(animation_id) + wire::le16(command_id)
        + wire::le16(n as u16);
    Seq::new(
        len as nat,
        |k: int|
            if k < 12 {
                header[k]
            } else if k < 12 + 24 * n {
                battle_action_entry_bytes(actions[offset + (k - 12) / 24])[(k - 12) % 24]
            } else {
                0u8
            },
    )
}

/// The payload length of a BattleAction container with a base payload of
/// `base` bytes carrying `n` actions: the base, or more when the header and the
/// actions need more.
pub open spec fn battle_action_payload_len(base: int, n: int) -> int {
    if 12 + 24 * n > base {
        12 + 24 * n
    } else {
        base
    }
}

/// Writes one battle action into `buf[pos..pos + 24]`.
fn encode_battle_action(buf: &mut [u8], pos: usize, entry: &BattleAction)
    requires
        pos + 24 <= old(buf).len(),
    ensures
        final(buf)@ == wire::splice(old(buf)@, pos as int, battle_action_entry_bytes(*entry)),
{
    write_u32_le(buf, pos, entry.target_id);
    write_i32_le(buf, pos + 4, entry.amount);
    write_i32_le(buf, pos + 8, entry.amount_mitigated);
    write_u32_le(buf, pos + 12, entry.effect_id);
    write_u32_le(buf, pos + 16, entry.param);
    write_u16_le(buf, pos + 20, entry.animation);
    buf[pos + 22] = entry.flag;
    buf[pos + 23] = 0;
    assert(buf@ =~= wire::splice(old(buf)@, pos as int, battle_action_entry_bytes(*entry)));
}

/// The BattleAction container: takes up to `cap` actions from `actions`
/// starting at `*list_offset`, writes them one after another, and moves the
/// offset past the actions taken. The subpacket goes to `player_actor_id`.
fn build_battle_action_container(
    player_actor_id: u32,
    source_actor_id: u32,
    animation_id: u32,
    command_id: u16,
    actions: &[BattleAction],
    list_offset: &mut usize,
    cap: usize,
    opcode: u16,
    packet_size: usize,
) -> (r: SubPacket)
    requires
        0x2C <= packet_size <= 0x1000,
        cap <= 0x100,
    ensures
        ({
            let n = batch_len(actions@.len() as int, *old(list_offset) as int, cap as int);
            &&& *final(list_offset) == *old(list_offset) + n
            &&& r@ == subpacket::new_model(
                true,
                opcode,
                player_actor_id,
                battle_action_batch_bytes(
                    source_actor_id,
                    animation_id,
                    command_id,
                    actions@,
                    *old(list_offset) as int,
                    n,
                    battle_action_payload_len(packet_size - HEADERS_SIZE, n),
                ),
                r.game_message.timestamp,
            )
        }),
{
    let off = *list_offset;
    let max = batch_size(actions.len(), off, cap);
    let needed = HEADERS_SIZE + 12 + 24 * max;
    let size = if needed > packet_size {
        needed
    } else {
        packet_size
    };
    let len = size - HEADERS_SIZE;
    let mut data = body(size);
    write_u32_le(data.as_mut_slice(), 0, source_actor_id);
    write_u32_le(data.as_mut_slice(), 4, animation_id);
    write_u16_le(data.as_mut_slice(), 8, command_id);
    write_u16_le(data.as_mut_slice(), 10, max as u16);
    assert forall|k: int| 0 <= k < len implies #[trigger] data@[k] == (if k < 12 {
        battle_action_batch_bytes(
            source_actor_id,
            animation_id,
            command_id,
            actions@,
            off as int,
            max as int,
            len as int,
        )[k]
    } else {
        0u8
    }) by {}
    let mut i: usize = 0;
    while i < max
        invariant
            i <= max,
            max == batch_len(actions@.len() as int, off as int, cap as int),
            max > 0 ==> off + max <= actions.len(),
            12 + 24 * max <= len,
            len == data@.len(),
            forall|k: int|
                0 <= k < len ==> #[trigger] data@[k] == (if k < 12 + 24 * i {
                    battle_action_batch_bytes(
                        source_actor_id,
                        animation_id,
                        command_id,
                        actions@,
                        off as int,
                        max as int,
                        len as int,
                    )[k]
                } else {
                    0u8
                }),
        decreases max - i,
    {
        encode_battle_action(data.as_mut_slice(), 12 + 24 * i, &actions[off + i]);
        proof {
            let p = 12 + 24 * i;
            assert forall|k: int| 0 <= k < len implies #[trigger] data@[k] == (if k < 12 + 24 * (i
                + 1) {
                battle_action_batch_bytes(
                    source_actor_id,
                    animation_id,
                    command_id,
                    actions@,
                    off as int,
                    max as int,
                    len as int,
                )[k]
            } else {
                0u8
            }) by {
                if p <= k < p + 24 {
                    lemma_entry_index(k, 12, 24, i as int);
                }
            }
        }
        i = i + 1;
    }
    assert(data@ =~= battle_action_batch_bytes(
        source_actor_id,
        animation_id,
        command_id,
        actions@,
        off as int,
        max as int,
        len as int,
    ));
    *list_offset = off + max;
    SubPacket::new(opcode, player_actor_id, data)
}

/// 0x013A BattleActionX10: takes up to 16 actions from `actions` starting at
/// `*list_offset`, writes them after a 12-byte header, and moves the offset
/// past them. The payload is 0xB8 bytes, grown to hold the header and the
/// actions when more than 7 are taken.
pub fn build_battle_action_x10(
    player_actor_id: u32,
    source_actor_id: u32,
    animation_id: u32,
    command_id: u16,
    actions: &[BattleAction],
    list_offset: &mut usize,
) -> (r: SubPacket)
    ensures
        ({
            let n = batch_len(actions@.len() as int, *old(list_offset) as int, 16);
            &&& *final(list_offset) == *old(list_offset) + n
            &&& r@ == subpacket::new_model(
                true,
                OP_BATTLE_ACTION_X10,
                player_actor_id,
                battle_action_batch_bytes(
                    source_actor_id,
                    animation_id,
                    command_id,
                    actions@,
                    *old(list_offset) as int,
                    n,
                    battle_action_payload_len(0xD8 - 0x20, n),
                ),
                r.game_message.timestamp,
            )
        }),
{
    build_battle_action_container(
        player_actor_id,
        source_actor_id,
        animation_id,
        command_id,
        actions,
        list_offset,
        16,
        OP_BATTLE_ACTION_X10,
        0xD8,
    )
}

/// 0x013B BattleActionX18: takes up to 24 actions from `actions` starting at
/// `*list_offset`, writes them after a 12-byte header, and moves the offset
/// past them. The payload is 0x128 bytes, grown to hold the header and the
/// actions when more than 11 are taken.
pub fn build_battle_action_x18(
    player_actor_id: u32,
    source_actor_id: u32,
    animation_id: u32,
    command_id: u16,
    actions: &[BattleAction],
    list_offset: &mut usize,
) -> (r: SubPacket)
    ensures
        ({
            let n = batch_len(actions@.len() as int, *old(list_offset) as int, 24);
            &&& *final(list_offset) == *old(list_offset) + n
            &&& r@ == subpacket::new_model(
                true,
                OP_BATTLE_ACTION_X18,
                player_actor_id,
                battle_action_batch_bytes(
                    source_actor_id,
                    animation_id,
                    command_id,
                    actions@,
                    *old(list_offset) as int,
                    n,
                    battle_action_payload_len(0x148 - 0x20, n),
                ),
                r.game_message.timestamp,
            )
        }),
{
    build_battle_action_container(
        player_actor_id,
        source_actor_id,
        animation_id,
        command_id,
        actions,
        list_offset,
        24,
        OP_BATTLE_ACTION_X18,
        0x148,
    )
}

/// A container takes at most `cap` entries and never runs past the list; it
/// takes none exactly when none are left, so repeated calls, each starting
/// where the last one stopped, send every entry once and in order.
pub proof fn lemma_batch_progress(len: int, offset: int, cap: int)
    requires
        0 <= offset <= len,
        0 < cap,
    ensures
        0 <= batch_len(len, offset, cap) <= cap,
        offset + batch_len(len, offset, cap) <= len,
        batch_len(len, offset, cap) == 0 <==> offset == len,
        len - offset <= cap ==> offset + batch_len(len, offset, cap) == len,
        len - offset >= cap ==> batch_len(len, offset, cap) == cap,
{
}

/// The entries that repeated calls take from `rows`, the first starting at
/// `offset` and each later one where the last stopped, in the order they are
/// sent.
pub open spec fn sent_rows<T>(rows: Seq<T>, offset: int, cap: int) -> Seq<T>
    decreases rows.len() - offset,
{
    if cap <= 0 || offset < 0 || offset >= rows.len() {
        Seq::empty()
    } else {
        let n = batch_len(rows.len() as int, offset, cap);
        rows.subrange(offset, offset + n) + sent_rows(rows, offset + n, cap)
    }
}

/// How many of those calls take at least one entry from a list of `len`.
pub open spec fn batch_count(len: int, offset: int, cap: int) -> int
    decreases len - offset,
{
    if cap <= 0 || offset < 0 || offset >= len {
        0
    } else {
        1 + batch_count(len, offset + batch_len(len, offset, cap), cap)
    }
}

/// Repeated container calls, each starting where the last one stopped, send
/// every entry from `offset` on exactly once and in order, in
/// ceil((len - offset) / cap) containers (each full but the last, by
/// `lemma_batch_progress`).
pub proof fn lemma_batches_send_every_row<T>(rows: Seq<T>, offset: int, cap: int)
    requires
        0 <= offset <= rows.len(),
        0 < cap,
    ensures
        sent_rows(rows, offset, cap) == rows.subrange(offset, rows.len() as int),
        batch_count(rows.len() as int, offset, cap) == (rows.len() - offset + cap - 1) / cap,
    decreases rows.len() - offset,
{
    let len = rows.len() as int;
    let x = len - offset;
    if offset == len {
        assert(rows.subrange(offset, len) =~= Seq::<T>::empty());
        vstd::arithmetic::div_mod::lemma_fundamental_div_mod_converse(cap - 1, cap, 0, cap - 1);
    } else {
        let n = batch_len(len, offset, cap);
        lemma_batches_send_every_row(rows, offset + n, cap);
        assert(rows.subrange(offset, offset + n) + rows.subrange(offset + n, len) =~= rows.subrange(
            offset,
            len,
        ));
        if x <= cap {
            vstd::arithmetic::div_mod::lemma_fundamental_div_mod_converse(0 + cap - 1, cap, 0, cap - 1);
            vstd::arithmetic::div_mod::lemma_fundamental_div_mod_converse(x + cap - 1, cap, 1, x - 1);
        } else {
            let q = (x - 1) / cap;
            let r = (x - 1) % cap;
            vstd::arithmetic::div_mod::lemma_fundamental_div_mod(x - 1, cap);
            assert(x + cap - 1 == (q + 1) * cap + r) by (nonlinear_arith)
                requires
                    x - 1 == cap * q + r,
            ;
            vstd::arithmetic::div_mod::lemma_fundamental_div_mod_converse(x + cap - 1, cap, q + 1, r);
        }
    }
}

/// Every field of result `i` of a command-result container is read back from
/// its column: the target id and hit effect as little-endian `u32`, the amount
/// and text id as little-endian `u16`, the param and hit number as bytes.
#[verifier::spinoff_prover]
#[verifier::rlimit(40)]
pub proof fn lemma_command_result_column_readback(
    header: Seq<u8>,
    rows: Seq<CommandResult>,
    cols: Seq<int>,
    cap: int,
    n: int,
    len: int,
    i: int,
)
    requires
        header.len() == 0x28,
        command_result_columns_fit(cols, cap, len),
        0 <= i < n <= cap,
        n <= rows.len(),
    ensures
        ({
            let d = command_result_container_bytes(header, rows, cols, Seq::new(6, |c: int| n), len);
            &&& wire::u32_at(d, cols[0] + 4 * i) == rows[i].target_id
            &&& wire::u16_at(d, cols[1] + 2 * i) == rows[i].amount as u16
            &&& wire::u16_at(d, cols[2] + 2 * i) == rows[i].worldmaster_text_id
            &&& wire::u32_at(d, cols[3] + 4 * i) == rows[i].hit_effect
            &&& d[cols[4] + i] == rows[i].param as u8
            &&& d[cols[5] + i] == rows[i].hit_num
        }),
{
    let d = command_result_container_bytes(header, rows, cols, Seq::new(6, |c: int| n), len);
    assert(d.subrange(cols[0] + 4 * i, cols[0] + 4 * i + 4) =~= wire::le32(rows[i].target_id)) by {
        assert forall|j: int| 0 <= j < 4 implies #[trigger] d.subrange(cols[0] + 4 * i, cols[0] + 4 * i + 4)[j] == wire::le32(rows[i].target_id)[j] by {
            lemma_entry_index(cols[0] + 4 * i + j, cols[0], 4, i);
        }
    }
    assert(d.subrange(cols[1] + 2 * i, cols[1] + 2 * i + 2) =~= wire::le16(rows[i].amount as u16)) by {
        assert forall|j: int| 0 <= j < 2 implies #[trigger] d.subrange(cols[1] + 2 * i, cols[1] + 2 * i + 2)[j] == wire::le16(rows[i].amount as u16)[j] by {
            lemma_entry_index(cols[1] + 2 * i + j, cols[1], 2, i);
        }
    }
    assert(d.subrange(cols[2] + 2 * i, cols[2] + 2 * i + 2) =~= wire::le16(rows[i].worldmaster_text_id)) by {
        assert forall|j: int| 0 <= j < 2 implies #[trigger] d.subrange(cols[2] + 2 * i, cols[2] + 2 * i + 2)[j] == wire::le16(rows[i].worldmaster_text_id)[j] by {
            lemma_entry_index(cols[2] + 2 * i + j, cols[2], 2, i);
        }
    }
    assert(d.subrange(cols[3] + 4 * i, cols[3] + 4 * i + 4) =~= wire::le32(rows[i].hit_effect)) by {
        assert forall|j: int| 0 <= j < 4 implies #[trigger] d.subrange(cols[3] + 4 * i, cols[3] + 4 * i + 4)[j] == wire::le32(rows[i].hit_effect)[j] by {
            lemma_entry_index(cols[3] + 4 * i + j, cols[3], 4, i);
        }
    }
    wire::lemma_u32_at_le32(d, cols[0] + 4 * i, rows[i].target_id);
    wire::lemma_u16_at_le16(d, cols[1] + 2 * i, rows[i].amount as u16);
    wire::lemma_u16_at_le16(d, cols[2] + 2 * i, rows[i].worldmaster_text_id);
    wire::lemma_u32_at_le32(d, cols[3] + 4 * i, rows[i].hit_effect);
}

/// A BattleAction payload reads back field by field: the source actor,
/// animation, command id and action count in the header, and for every action
/// `i` taken its target id, amount and mitigated amount (two's complement),
/// effect id, param, animation and flag at `12 + 24 * i`; every byte after the
/// last action is zero.
#[verifier::spinoff_prover]
#[verifier::rlimit(40)]
pub proof fn lemma_battle_action_readback(
    source_actor_id: u32,
    animation_id: u32,
    command_id: u16,
    actions: Seq<BattleAction>,
    offset: int,
    n: int,
    len: int,
)
    requires
        0 <= offset,
        0 <= n,
        offset + n <= actions.len(),
        12 + 24 * n <= len,
    ensures
        ({
            let d = battle_action_batch_bytes(
                source_actor_id,
                animation_id,
                command_id,
                actions,
                offset,
                n,
                len,
            );
            &&& d.len() == len
            &&& wire::u32_at(d, 0) == source_actor_id
            &&& wire::u32_at(d, 4) == animation_id
            &&& wire::u16_at(d, 8) == command_id
            &&& wire::u16_at(d, 10) == n as u16
            &&& forall|i: int|
                0 <= i < n ==> {
                    let e = #[trigger] actions[offset + i];
                    &&& wire::u32_at(d, 12 + 24 * i) == e.target_id
                    &&& wire::u32_at(d, 16 + 24 * i) == e.amount as u32
                    &&& wire::u32_at(d, 20 + 24 * i) == e.amount_mitigated as u32
                    &&& wire::u32_at(d, 24 + 24 * i) == e.effect_id
                    &&& wire::u32_at(d, 28 + 24 * i) == e.param
                    &&& wire::u16_at(d, 32 + 24 * i) == e.animation
                    &&& d[34 + 24 * i] == e.flag
                    &&& d[35 + 24 * i] == 0
                }
            &&& forall|k: int| 12 + 24 * n <= k < len ==> d[k] == 0
        }),
{
    let d = battle_action_batch_bytes(source_actor_id, animation_id, command_id, actions, offset, n, len);
    let header = wire::le32(source_actor_id) + wire::le32(animation_id) + wire::le16(command_id)
        + wire::le16(n as u16);
    assert(d.subrange(0, 4) =~= wire::le32(source_actor_id));
    assert(d.subrange(4, 8) =~= wire::le32(animation_id));
    assert(d.subrange(8, 10) =~= wire::le16(command_id));
    assert(d.subrange(10, 12) =~= wire::le16(n as u16));
    wire::lemma_u32_at_le32(d, 0, source_actor_id);
    wire::lemma_u32_at_le32(d, 4, animation_id);
    wire::lemma_u16_at_le16(d, 8, command_id);
    wire::lemma_u16_at_le16(d, 10, n as u16);
    assert forall|i: int| 0 <= i < n implies {
        let e = #[trigger] actions[offset + i];
        &&& wire::u32_at(d, 12 + 24 * i) == e.target_id
        &&& wire::u32_at(d, 16 + 24 * i) == e.amount as u32
        &&& wire::u32_at(d, 20 + 24 * i) == e.amount_mitigated as u32
        &&& wire::u32_at(d, 24 + 24 * i) == e.effect_id
        &&& wire::u32_at(d, 28 + 24 * i) == e.param
        &&& wire::u16_at(d, 32 + 24 * i) == e.animation
        &&& d[34 + 24 * i] == e.flag
        &&& d[35 + 24 * i] == 0
    } by {
        let e = actions[offset + i];
        let p = 12 + 24 * i;
        let eb = battle_action_entry_bytes(e);
        assert(d.subrange(p, p + 24) =~= eb) by {
            assert forall|j: int| 0 <= j < 24 implies #[trigger] d.subrange(p, p + 24)[j] == eb[j] by {
                lemma_entry_index(p + j, 12, 24, i);
            }
        }
        assert(d.subrange(p, p + 4) =~= wire::le32(e.target_id)) by {
            assert(d.subrange(p, p + 4) =~= d.subrange(p, p + 24).subrange(0, 4));
        }
        assert(d.subrange(p + 4, p + 8) =~= wire::le32(e.amount as u32)) by {
            assert(d.subrange(p + 4, p + 8) =~= d.subrange(p, p + 24).subrange(4, 8));
        }
        assert(d.subrange(p + 8, p + 12) =~= wire::le32(e.amount_mitigated as u32)) by {
            assert(d.subrange(p + 8, p + 12) =~= d.subrange(p, p + 24).subrange(8, 12));
        }
        assert(d.subrange(p + 12, p + 16) =~= wire::le32(e.effect_id)) by {
            assert(d.subrange(p + 12, p + 16) =~= d.subrange(p, p + 24).subrange(12, 16));
        }
        assert(d.subrange(p + 16, p + 20) =~= wire::le32(e.param)) by {
            assert(d.subrange(p + 16, p + 20) =~= d.subrange(p, p + 24).subrange(16, 20));
        }
        assert(d.subrange(p + 20, p + 22) =~= wire::le16(e.animation)) by {
            assert(d.subrange(p + 20, p + 22) =~= d.subrange(p, p + 24).subrange(20, 22));
        }
        assert(d[p + 22] == d.subrange(p, p + 24)[22]);
        assert(d[p + 23] == d.subrange(p, p + 24)[23]);
        wire::lemma_u32_at_le32(d, p, e.target_id);
        wire::lemma_u32_at_le32(d, p + 4, e.amount as u32);
        wire::lemma_u32_at_le32(d, p + 8, e.amount_mitigated as u32);
        wire::lemma_u32_at_le32(d, p + 12, e.effect_id);
        wire::lemma_u32_at_le32(d, p + 16, e.param);
        wire::lemma_u16_at_le16(d, p + 20, e.animation);
    }
}

/// The fields of a SetEnmityIndicator payload read back as the target id and
/// the hate amount.
pub proof fn lemma_enmity_indicator_readback(target_actor_id: u32, hate_amount: u16)
    ensures
        enmity_indicator_bytes(target_actor_id, hate_amount).len() == 8,
        wire::u32_at(enmity_indicator_bytes(target_actor_id, hate_amount), 0) == target_actor_id,
        wire::u16_at(enmity_indicator_bytes(target_actor_id, hate_amount), 4) == hate_amount,
{
    let d = enmity_indicator_bytes(target_actor_id, hate_amount);
    assert(d.subrange(0, 4) =~= wire::le32(target_actor_id));
    assert(d.subrange(4, 6) =~= wire::le16(hate_amount));
    wire::lemma_u32_at_le32(d, 0, target_actor_id);
    wire::lemma_u16_at_le16(d, 4, hate_amount);
}

} // verus!
