use garlemald::actor_battle::{
    build_battle_action_x10, build_battle_action_x18, build_command_result_x00,
    build_command_result_x01, build_command_result_x10, build_command_result_x18,
    build_set_enmity_indicator, BattleAction, CommandResult, HATE_AMOUNT_LOCKED, NO_ENMITY_TARGET,
};
use garlemald::opcodes::{
    OP_BATTLE_ACTION_X10, OP_BATTLE_ACTION_X18, OP_COMMAND_RESULT_X00, OP_COMMAND_RESULT_X01,
    OP_COMMAND_RESULT_X10, OP_COMMAND_RESULT_X18, OP_SET_ENMITY_INDICATOR,
};

/// Reproduce the four 0x0195 packets of the full hate lifecycle from
/// "established, no target" to "released target, retain max hate".
#[test]
fn enmity_indicator_lifecycle_matches_retail_capture() {
    let p1 = build_set_enmity_indicator(0x44D0_35D5, NO_ENMITY_TARGET, 100);
    assert_eq!(p1.data, [0x00, 0x00, 0x00, 0xE0, 0x64, 0x00, 0x00, 0x00]);
    assert_eq!(p1.header.source_id, 0x44D0_35D5);
    assert_eq!(p1.game_message.opcode, OP_SET_ENMITY_INDICATOR);

    let p2 = build_set_enmity_indicator(0x44D0_35D5, 0x029B_2941, 100);
    assert_eq!(p2.data, [0x41, 0x29, 0x9B, 0x02, 0x64, 0x00, 0x00, 0x00]);

    let p3 = build_set_enmity_indicator(0x44D0_35D5, 0x029B_2941, HATE_AMOUNT_LOCKED);
    assert_eq!(p3.data, [0x41, 0x29, 0x9B, 0x02, 0xFF, 0xFF, 0x00, 0x00]);

    let p4 = build_set_enmity_indicator(0x44D0_35D5, NO_ENMITY_TARGET, HATE_AMOUNT_LOCKED);
    assert_eq!(p4.data, [0x00, 0x00, 0x00, 0xE0, 0xFF, 0xFF, 0x00, 0x00]);
}

#[test]
fn enmity_indicator_body_is_eight_bytes() {
    let p = build_set_enmity_indicator(0x1, 0x2, 50);
    assert_eq!(p.data.len(), 8);
    let hate = u16::from_le_bytes([p.data[4], p.data[5]]);
    assert_eq!(hate, 50);
}

#[test]
fn command_result_x01_matches_retail_invigorate() {
    let pkt = build_command_result_x01(
        0x029B_2941,
        0x0E00_223F,
        27260,
        &CommandResult {
            target_id: 0x029B_2941,
            amount: 0,
            worldmaster_text_id: 30328,
            hit_effect: 0x2003_6776,
            param: 0,
            hit_num: 1,
            ..Default::default()
        },
    );
    assert_eq!(pkt.game_message.opcode, OP_COMMAND_RESULT_X01);
    assert_eq!(pkt.header.source_id, 0x029B_2941);
    let mut expected = [0u8; 0x38];
    expected[0x00..0x04].copy_from_slice(&0x029B_2941u32.to_le_bytes());
    expected[0x04..0x08].copy_from_slice(&0x0E00_223Fu32.to_le_bytes());
    expected[0x20..0x24].copy_from_slice(&1u32.to_le_bytes());
    expected[0x24..0x26].copy_from_slice(&27260u16.to_le_bytes());
    expected[0x26..0x28].copy_from_slice(&0x0810u16.to_le_bytes());
    expected[0x28..0x2C].copy_from_slice(&0x029B_2941u32.to_le_bytes());
    expected[0x2E..0x30].copy_from_slice(&30328u16.to_le_bytes());
    expected[0x30..0x34].copy_from_slice(&0x2003_6776u32.to_le_bytes());
    expected[0x35] = 1; // hitNum
    assert_eq!(pkt.data, expected);
}

#[test]
fn command_result_x01_matches_retail_auto_attack() {
    let pkt = build_command_result_x01(
        0x029B_2941,
        0x1900_1000,
        22104,
        &CommandResult {
            target_id: 0x44D0_35D5,
            amount: 81,
            worldmaster_text_id: 30301,
            hit_effect: 0x0800_0604,
            param: 1,
            hit_num: 1,
            ..Default::default()
        },
    );
    let mut expected = [0u8; 0x38];
    expected[0x00..0x04].copy_from_slice(&0x029B_2941u32.to_le_bytes());
    expected[0x04..0x08].copy_from_slice(&0x1900_1000u32.to_le_bytes());
    expected[0x20..0x24].copy_from_slice(&1u32.to_le_bytes());
    expected[0x24..0x26].copy_from_slice(&22104u16.to_le_bytes());
    expected[0x26..0x28].copy_from_slice(&0x0810u16.to_le_bytes());
    expected[0x28..0x2C].copy_from_slice(&0x44D0_35D5u32.to_le_bytes());
    expected[0x2C..0x2E].copy_from_slice(&81u16.to_le_bytes());
    expected[0x2E..0x30].copy_from_slice(&30301u16.to_le_bytes());
    expected[0x30..0x34].copy_from_slice(&0x0800_0604u32.to_le_bytes());
    expected[0x34] = 1; // param
    expected[0x35] = 1; // hitNum
    assert_eq!(pkt.data[..0x1C], expected[..0x1C]);
    assert_eq!(pkt.data[0x20..], expected[0x20..]);
}

#[test]
fn command_result_x00_matches_pmeteor_state_flush() {
    let pkt = build_command_result_x00(1, 0x7200_0062, 0);
    assert_eq!(pkt.game_message.opcode, OP_COMMAND_RESULT_X00);
    let mut expected = [0u8; 0x28];
    expected[0x00..0x04].copy_from_slice(&1u32.to_le_bytes());
    expected[0x04..0x08].copy_from_slice(&0x7200_0062u32.to_le_bytes());
    expected[0x26..0x28].copy_from_slice(&810u16.to_le_bytes());
    assert_eq!(pkt.data, expected);
}

#[test]
fn command_result_x10_packs_columns() {
    let rows: Vec<CommandResult> = (0..2u32)
        .map(|i| CommandResult {
            target_id: 0x1000 + i,
            amount: 10 + i,
            worldmaster_text_id: 30301,
            hit_effect: 0x0800_0604,
            param: 1,
            hit_num: (i + 1) as u8,
            ..Default::default()
        })
        .collect();
    let mut offset = 0usize;
    let pkt = build_command_result_x10(7, 0x1900_1000, 22104, &rows, &mut offset);
    assert_eq!(offset, 2);
    assert_eq!(pkt.data.len(), 0xD8 - 0x20);
    assert_eq!(&pkt.data[0x20..0x24], &2u32.to_le_bytes());
    assert_eq!(&pkt.data[0x24..0x26], &22104u16.to_le_bytes());
    assert_eq!(&pkt.data[0x28..0x2C], &0x1000u32.to_le_bytes());
    assert_eq!(&pkt.data[0x2C..0x30], &0x1001u32.to_le_bytes());
    assert_eq!(&pkt.data[0x50..0x52], &10u16.to_le_bytes());
    assert_eq!(&pkt.data[0x52..0x54], &11u16.to_le_bytes());
    assert_eq!(&pkt.data[0x64..0x66], &30301u16.to_le_bytes());
    assert_eq!(&pkt.data[0x78..0x7C], &0x0800_0604u32.to_le_bytes());
    assert_eq!(pkt.data[0xA0], 1);
    assert_eq!(pkt.data[0xAA], 1);
    assert_eq!(pkt.data[0xAB], 2);

    // Capacity is 10 — a 12-row burst leaves 2 for the next packet.
    let many: Vec<CommandResult> = (0..12).map(|_| CommandResult::default()).collect();
    let mut off = 0usize;
    let _ = build_command_result_x10(7, 0, 0, &many, &mut off);
    assert_eq!(off, 10);
}

#[test]
fn command_result_x10_second_batch_takes_the_rest() {
    let many: Vec<CommandResult> = (0..12u32)
        .map(|i| CommandResult { target_id: i, hit_num: i as u8, ..Default::default() })
        .collect();
    let mut off = 0usize;
    let first = build_command_result_x10(7, 0, 0, &many, &mut off);
    assert_eq!(&first.data[0x20..0x24], &10u32.to_le_bytes());
    let second = build_command_result_x10(7, 0, 0, &many, &mut off);
    assert_eq!(off, 12);
    assert_eq!(&second.data[0x20..0x24], &2u32.to_le_bytes());
    assert_eq!(&second.data[0x28..0x2C], &10u32.to_le_bytes());
    assert_eq!(&second.data[0x2C..0x30], &11u32.to_le_bytes());
    assert_eq!(second.data[0xAA], 10);
    assert_eq!(second.data[0xAB], 11);
    assert_eq!(second.data[0xAC], 0);
    let third = build_command_result_x10(7, 0, 0, &many, &mut off);
    assert_eq!(off, 12);
    assert_eq!(&third.data[0x20..0x24], &0u32.to_le_bytes());
    assert_eq!(third.game_message.opcode, OP_COMMAND_RESULT_X10);
}

#[test]
fn command_result_x18_uses_its_columns_and_capacity() {
    let many: Vec<CommandResult> = (0..20u32)
        .map(|i| CommandResult {
            target_id: 0x100 + i,
            amount: 0x1_0005,
            worldmaster_text_id: 7,
            hit_effect: 0xAABB_CCDD,
            param: 0x1FF,
            hit_num: 3,
            ..Default::default()
        })
        .collect();
    let mut off = 0usize;
    let pkt = build_command_result_x18(9, 0x11, 0x22, &many, &mut off);
    assert_eq!(off, 18);
    assert_eq!(pkt.game_message.opcode, OP_COMMAND_RESULT_X18);
    assert_eq!(pkt.data.len(), 0x148 - 0x20);
    assert_eq!(&pkt.data[0x20..0x24], &18u32.to_le_bytes());
    assert_eq!(&pkt.data[0x28..0x2C], &0x100u32.to_le_bytes());
    assert_eq!(&pkt.data[0x6C..0x70], &0x111u32.to_le_bytes());
    // The amount is truncated to 16 bits.
    assert_eq!(&pkt.data[0x70..0x72], &5u16.to_le_bytes());
    assert_eq!(&pkt.data[0x94..0x96], &7u16.to_le_bytes());
    assert_eq!(&pkt.data[0xB8..0xBC], &0xAABB_CCDDu32.to_le_bytes());
    // The param is truncated to 8 bits.
    assert_eq!(pkt.data[0x100], 0xFF);
    assert_eq!(pkt.data[0x112], 3);
    assert_eq!(pkt.data[0x112 + 17], 3);
    assert!(pkt.data[0x112 + 18..].iter().all(|b| *b == 0));
}

#[test]
fn battle_action_x10_lays_out_rows() {
    let actions = vec![
        BattleAction {
            target_id: 0x0102_0304,
            amount: -2,
            amount_mitigated: 5,
            effect_id: 0x11,
            param: 0x22,
            animation: 0x3344,
            flag: 0x55,
        },
        BattleAction { target_id: 9, ..Default::default() },
    ];
    let mut off = 0usize;
    let pkt = build_battle_action_x10(0xAAAA, 0xBBBB, 0xCCCC, 0x1234, &actions, &mut off);
    assert_eq!(off, 2);
    assert_eq!(pkt.header.source_id, 0xAAAA);
    assert_eq!(pkt.game_message.opcode, OP_BATTLE_ACTION_X10);
    assert_eq!(pkt.data.len(), 0xD8 - 0x20);
    let d = &pkt.data;
    assert_eq!(&d[0..4], &0xBBBBu32.to_le_bytes());
    assert_eq!(&d[4..8], &0xCCCCu32.to_le_bytes());
    assert_eq!(&d[8..10], &0x1234u16.to_le_bytes());
    assert_eq!(&d[10..12], &2u16.to_le_bytes());
    assert_eq!(&d[12..16], &0x0102_0304u32.to_le_bytes());
    assert_eq!(&d[16..20], &(-2i32).to_le_bytes());
    assert_eq!(&d[20..24], &5i32.to_le_bytes());
    assert_eq!(&d[24..28], &0x11u32.to_le_bytes());
    assert_eq!(&d[28..32], &0x22u32.to_le_bytes());
    assert_eq!(&d[32..34], &0x3344u16.to_le_bytes());
    assert_eq!(d[34], 0x55);
    assert_eq!(d[35], 0);
    assert_eq!(&d[36..40], &9u32.to_le_bytes());
    assert!(d[40..].iter().all(|b| *b == 0));
}

#[test]
fn battle_action_x18_fits_eleven_actions() {
    let actions: Vec<BattleAction> =
        (0..11u32).map(|i| BattleAction { target_id: i + 1, ..Default::default() }).collect();
    let mut off = 0usize;
    let pkt = build_battle_action_x18(1, 2, 3, 4, &actions, &mut off);
    assert_eq!(off, 11);
    assert_eq!(pkt.game_message.opcode, OP_BATTLE_ACTION_X18);
    assert_eq!(&pkt.data[10..12], &11u16.to_le_bytes());
    assert_eq!(&pkt.data[12 + 24 * 10..12 + 24 * 10 + 4], &11u32.to_le_bytes());
}

#[test]
fn battle_action_container_past_the_end_takes_nothing() {
    let actions: Vec<BattleAction> = vec![BattleAction::default(); 3];
    let mut off = 5usize;
    let pkt = build_battle_action_x10(1, 2, 3, 4, &actions, &mut off);
    assert_eq!(off, 5);
    assert_eq!(&pkt.data[10..12], &0u16.to_le_bytes());
}

#[test]
fn battle_action_x10_takes_a_full_batch_of_sixteen() {
    let actions = vec![BattleAction::default(); 16];
    let mut off = 0usize;
    let pkt = build_battle_action_x10(1, 2, 0, 0, &actions, &mut off);
    assert_eq!(off, 16);
    assert_eq!(&pkt.data[10..12], &16u16.to_le_bytes());
    assert_eq!(pkt.data.len(), 12 + 24 * 16);
    assert_eq!(&pkt.data[0..4], &2u32.to_le_bytes());
}

#[test]
fn battle_action_x18_takes_a_full_batch_of_twenty_four() {
    let actions: Vec<BattleAction> =
        (0..30u32).map(|i| BattleAction { target_id: i, ..Default::default() }).collect();
    let mut off = 0usize;
    let pkt = build_battle_action_x18(1, 2, 0, 0, &actions, &mut off);
    assert_eq!(pkt.game_message.opcode, OP_BATTLE_ACTION_X18);
    assert_eq!(&pkt.data[10..12], &24u16.to_le_bytes());
    assert_eq!(off, 24);
    assert_eq!(pkt.data.len(), 12 + 24 * 24);
    assert_eq!(&pkt.data[12 + 24 * 23..12 + 24 * 23 + 4], &23u32.to_le_bytes());
}

#[test]
fn command_result_x10_batches_send_every_row_in_order() {
    let rows: Vec<CommandResult> =
        (0..23u32).map(|i| CommandResult { target_id: 0x500 + i, ..Default::default() }).collect();
    let mut off = 0usize;
    let mut sent = Vec::new();
    let mut packets = 0;
    while off < rows.len() {
        let pkt = build_command_result_x10(7, 0, 0, &rows, &mut off);
        packets += 1;
        let n = u32::from_le_bytes([pkt.data[0x20], pkt.data[0x21], pkt.data[0x22], pkt.data[0x23]]) as usize;
        if off < rows.len() {
            assert_eq!(n, 10);
        }
        for i in 0..n {
            let at = 0x28 + 4 * i;
            sent.push(u32::from_le_bytes([pkt.data[at], pkt.data[at + 1], pkt.data[at + 2], pkt.data[at + 3]]));
        }
    }
    assert_eq!(packets, 3);
    assert_eq!(sent, rows.iter().map(|r| r.target_id).collect::<Vec<u32>>());
}
