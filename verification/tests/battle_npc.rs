use garlemald::battle::{BattleEvent, BattleOutbox, ControllerKind, HateContainer};
use garlemald::battle_npc::{BattleNpc, DetectionType, KindredType};
use garlemald::database::BattleNpcSpawn;
use garlemald::mob_modifier::MobModifier;
use garlemald::modifier::Modifier;
use garlemald::npc::ActorClass;

fn class() -> ActorClass {
    ActorClass::new(1_234_567, "/Chara/Npc/Mob/Dodo".to_string(), 42, 0, "".to_string(), 0, 0, 0)
}

fn bits(v: f32) -> u32 {
    v.to_bits()
}

#[allow(clippy::too_many_arguments)]
fn new_bnpc(actor_number: u32, unique_id: &str, area_id: u32, x: f32, y: f32, z: f32) -> BattleNpc {
    BattleNpc::new(
        actor_number,
        &class(),
        unique_id.to_string(),
        area_id,
        bits(x),
        bits(y),
        bits(z),
        bits(0.0),
        0,
        0,
        None,
    )
}

#[test]
fn new_battle_npc_seeds_hate_container() {
    let bnpc = new_bnpc(7, "dodo_7", 100, 10.0, 0.0, 10.0);
    assert_eq!(bnpc.npc.character.hate.owner_actor_id, bnpc.actor_id());
}

#[test]
fn force_respawn_restores_position_and_hp() {
    let mut bnpc = new_bnpc(7, "dodo_7", 100, 10.0, 0.0, 10.0);
    bnpc.npc.character.chara.max_hp = 500;
    bnpc.npc.character.chara.hp = 0;
    bnpc.npc.character.base.position_x = bits(200.0);
    bnpc.npc.character.hate.update_hate(99, 50);

    let mut outbox = BattleOutbox::new();
    bnpc.force_respawn(&mut outbox);

    assert_eq!(bnpc.npc.character.chara.hp, 500);
    assert_eq!(f32::from_bits(bnpc.npc.character.base.position_x), 10.0);
    assert!(bnpc.npc.character.hate.is_empty());
    assert!(outbox.events.iter().any(|e| matches!(e, BattleEvent::Spawn { .. })));
}

#[test]
fn die_pushes_event_and_zeros_hp() {
    let mut bnpc = new_bnpc(7, "dodo_7", 100, 10.0, 0.0, 10.0);
    bnpc.npc.character.chara.hp = 500;
    let mut ob = BattleOutbox::new();
    bnpc.die(&mut ob);
    assert_eq!(bnpc.npc.character.chara.hp, 0);
    assert!(ob.events.iter().any(|e| matches!(e, BattleEvent::Die { .. })));
}

#[test]
fn merge_modifier_layers_stacks_with_spawn_winning() {
    let mut bnpc = new_bnpc(7, "dodo_7", 100, 0.0, 0.0, 0.0);
    bnpc.pool_mods.set(Modifier::Defense, 10.0f64.to_bits());
    bnpc.genus_mods.set(Modifier::Defense, 20.0f64.to_bits());
    bnpc.spawn_mods.set(Modifier::Defense, 30.0f64.to_bits());
    bnpc.pool_mods.set(Modifier::Strength, 5.0f64.to_bits());
    bnpc.merge_modifier_layers();
    assert_eq!(f64::from_bits(bnpc.npc.character.chara.mods.get(Modifier::Defense)), 30.0);
    assert_eq!(f64::from_bits(bnpc.npc.character.chara.mods.get(Modifier::Strength)), 5.0);
}

#[test]
fn on_attack_records_last_attacker() {
    let mut bnpc = new_bnpc(7, "dodo_7", 100, 0.0, 0.0, 0.0);
    assert!(bnpc.on_attack(42));
    assert_eq!(bnpc.last_attacker_actor_id, 42);
    assert!(bnpc.npc.character.hate.has_hate_for(42));
}

#[test]
fn mob_mod_set_and_get() {
    let mut bnpc = new_bnpc(7, "dodo_7", 100, 0.0, 0.0, 0.0);
    bnpc.set_mob_mod(MobModifier::SightRange, 30);
    assert_eq!(bnpc.get_mob_mod(MobModifier::SightRange), 30);
    assert_eq!(bnpc.get_mob_mod(MobModifier::SoundRange), 0);
}

fn make_spawn(allegiance: u8, aggro_type: u8, detection: u32) -> BattleNpcSpawn {
    BattleNpcSpawn {
        bnpc_id: 3,
        group_id: 2,
        position_x: bits(365.0),
        position_y: bits(4.0),
        position_z: bits(-700.0),
        rotation: bits(1.5),
        pool_id: 2,
        script_name: "bloodthirsty_wolf".to_string(),
        min_level: 4,
        max_level: 4,
        respawn_time: 30,
        hp: 200,
        mp: 0,
        drop_list_id: 17,
        allegiance,
        spawn_type: 0,
        animation_id: 0,
        actor_state: 0,
        private_area_name: String::new(),
        private_area_level: 0,
        zone_id: 166,
        genus_id: 58,
        actor_class_id: 2_201_407,
        current_job: 0,
        combat_skill: 0,
        combat_delay: 0,
        aggro_type,
        speed: 8,
        detection,
        kindred_id: 1,
        kindred_name: "Beast".to_string(),
    }
}

#[test]
fn c1_apply_spawn_metadata_populates_bnpc_fields() {
    let mut bnpc = new_bnpc(99, "wolf_99", 166, 0.0, 0.0, 0.0);
    bnpc.npc.character.chara.level = 4;
    let spawn = make_spawn(
        /*allegiance=*/ 2, /*aggro_type=*/ 1, /*detection=*/ 0x01,
    );
    let actor_id = bnpc.actor_id();
    bnpc.apply_spawn_metadata(&spawn, 3, actor_id);

    assert_eq!(bnpc.bnpc_id, 3);
    assert_eq!(bnpc.pool_id, 2);
    assert_eq!(bnpc.genus_id, 58);
    assert_eq!(bnpc.drop_list_id, 17);
    assert_eq!(bnpc.respawn_time_seconds, 30);
    assert_eq!(bnpc.detection_type, DetectionType::sight());
    assert_eq!(bnpc.kindred_type, KindredType::Beast);
    assert!(
        !bnpc.neutral,
        "wolf with aggro_type=1 + hostile allegiance should not be neutral"
    );
}

#[test]
fn c1_apply_spawn_metadata_attaches_battlenpc_controller_for_mob() {
    let mut bnpc = new_bnpc(99, "wolf_99", 166, 0.0, 0.0, 0.0);
    let actor_id = bnpc.actor_id();
    bnpc.npc.character.chara.level = 4;
    let spawn = make_spawn(
        /*allegiance=*/ 2, /*aggro_type=*/ 1, /*detection=*/ 0x01,
    );
    bnpc.apply_spawn_metadata(&spawn, 3, actor_id);

    let ctrl = bnpc
        .npc
        .character
        .ai_container
        .controller
        .as_ref()
        .expect("C1 should attach a Controller to the AIContainer");
    assert_eq!(ctrl.kind, ControllerKind::BattleNpc);
    assert_eq!(ctrl.owner_actor_id, actor_id);
    assert_eq!(ctrl.battle.detection_type.0, 0x01);
    assert!(!ctrl.battle.neutral);
    assert_eq!(ctrl.battle.level, 4);
}

#[test]
fn c1_apply_spawn_metadata_attaches_ally_controller_for_player_allegiance() {
    let mut bnpc = new_bnpc(99, "yda_99", 166, 0.0, 0.0, 0.0);
    let actor_id = bnpc.actor_id();
    // Ally with aggro_type==1 still ends up neutral because
    // allegiance==1 forces neutrality (else Yda aggros the player).
    let spawn = make_spawn(
        /*allegiance=*/ 1, /*aggro_type=*/ 1, /*detection=*/ 0x01,
    );
    bnpc.apply_spawn_metadata(&spawn, 6, actor_id);

    let ctrl = bnpc
        .npc
        .character
        .ai_container
        .controller
        .as_ref()
        .expect("C1 should attach a Controller for ally NPCs too");
    assert_eq!(ctrl.kind, ControllerKind::Ally);
    assert!(
        ctrl.battle.neutral,
        "ally NPCs (allegiance=1) must stay neutral toward the player",
    );
    assert!(
        bnpc.neutral,
        "BattleNpc.neutral must match the controller's neutral flag",
    );
}

#[test]
fn c1_apply_spawn_metadata_zero_aggro_type_forces_neutral_mob() {
    // A hostile-allegiance mob with aggro_type=0 still ends up
    // neutral.
    let mut bnpc = new_bnpc(99, "passive_99", 166, 0.0, 0.0, 0.0);
    let spawn = make_spawn(
        /*allegiance=*/ 2, /*aggro_type=*/ 0, /*detection=*/ 0x01,
    );
    let actor_id = bnpc.actor_id();
    bnpc.apply_spawn_metadata(&spawn, 100, actor_id);
    assert!(bnpc.neutral);
    assert!(
        bnpc.npc
            .character
            .ai_container
            .controller
            .as_ref()
            .unwrap()
            .battle
            .neutral,
        "Controller.battle.neutral must mirror BattleNpc.neutral",
    );
}

#[test]
fn apply_spawn_metadata_copies_spawn_position_into_controller() {
    let mut bnpc = new_bnpc(99, "wolf_99", 166, 0.0, 0.0, 0.0);
    let spawn = make_spawn(2, 1, 0x05);
    let actor_id = bnpc.actor_id();
    bnpc.apply_spawn_metadata(&spawn, 3, actor_id);
    let ctrl = bnpc.npc.character.ai_container.controller.unwrap();
    assert_eq!(f32::from_bits(ctrl.battle.spawn_position.x), 365.0);
    assert_eq!(f32::from_bits(ctrl.battle.spawn_position.z), -700.0);
    assert_eq!(bnpc.get_detection_type(), 0x05);
}

#[test]
fn new_battle_npc_starts_with_default_combat_state() {
    let bnpc = new_bnpc(7, "dodo_7", 100, 1.0, 2.0, 3.0);
    assert_eq!(bnpc.actor_id(), (4 << 28) | (100 << 19) | 7);
    assert_eq!(bnpc.get_despawn_time(), 10);
    assert_eq!(bnpc.get_respawn_time(), 0);
    assert_eq!(bnpc.get_detection_type(), 0);
    assert_eq!(bnpc.kindred_type, KindredType::Unknown);
    assert!(!bnpc.neutral);
    assert_eq!(f32::from_bits(bnpc.npc.character.chara.spawn_y), 2.0);
    assert!(bnpc.npc.character.hate.is_empty());
    assert!(bnpc.npc.character.ai_container.controller.is_none());
}

#[test]
fn from_npc_replaces_hate_table() {
    let mut npc = new_bnpc(5, "x", 1, 0.0, 0.0, 0.0).npc;
    npc.character.hate = HateContainer::new(12345);
    npc.character.hate.update_hate(8, 3);
    let id = npc.actor_id();
    let bnpc = BattleNpc::from_npc(npc);
    assert_eq!(bnpc.npc.character.hate.owner_actor_id, id);
    assert!(!bnpc.npc.character.hate.has_hate_for(8));
    assert_eq!(bnpc.get_despawn_time(), 10);
}

#[test]
fn timers_and_detection_setters() {
    let mut bnpc = new_bnpc(7, "dodo_7", 100, 0.0, 0.0, 0.0);
    bnpc.set_despawn_time(45);
    bnpc.set_respawn_time(90);
    bnpc.set_detection_type(0x22);
    assert_eq!(bnpc.get_despawn_time(), 45);
    assert_eq!(bnpc.get_respawn_time(), 90);
    assert_eq!(bnpc.get_detection_type(), 0x22);
    assert!(bnpc.detection_type.contains(DetectionType::magic()));
    assert!(!bnpc.detection_type.intersects(DetectionType::sight()));
}

#[test]
fn despawn_only_queues_event() {
    let mut bnpc = new_bnpc(7, "dodo_7", 100, 0.0, 0.0, 0.0);
    bnpc.npc.character.chara.hp = 12;
    let id = bnpc.actor_id();
    let mut ob = BattleOutbox::new();
    bnpc.despawn(&mut ob);
    bnpc.die(&mut ob);
    assert_eq!(
        ob.events,
        vec![BattleEvent::Despawn { owner_actor_id: id }, BattleEvent::Die { owner_actor_id: id }]
    );
}

#[test]
fn repeated_attacks_accumulate_hate_and_respawn_clears_it() {
    let mut bnpc = new_bnpc(7, "dodo_7", 100, 0.0, 0.0, 0.0);
    bnpc.on_attack(1);
    bnpc.on_attack(2);
    assert_eq!(bnpc.last_attacker_actor_id, 2);
    assert!(bnpc.npc.character.hate.has_hate_for(1));
    let mut ob = BattleOutbox::new();
    bnpc.force_respawn(&mut ob);
    assert_eq!(bnpc.last_attacker_actor_id, 0);
    assert!(!bnpc.npc.character.hate.has_hate_for(1));
    assert_eq!(ob.events.len(), 1);
}

#[test]
fn kindred_from_u8_maps_ids() {
    assert_eq!(KindredType::from_u8(0), KindredType::Unknown);
    assert_eq!(KindredType::from_u8(1), KindredType::Beast);
    assert_eq!(KindredType::from_u8(6), KindredType::Insect);
    assert_eq!(KindredType::from_u8(10), KindredType::Voidsent);
    assert_eq!(KindredType::from_u8(11), KindredType::Unknown);
    assert_eq!(KindredType::from_u8(255), KindredType::Unknown);
}

#[test]
fn detection_flags_combine() {
    let both = DetectionType::sight() | DetectionType::sound();
    assert_eq!(both.bits(), 0x05);
    assert!(both.contains(DetectionType::sight()));
    assert!(both.contains(DetectionType::sound()));
    assert!(!both.contains(DetectionType::scent()));
    assert!(both.intersects(DetectionType::sound() | DetectionType::low_hp()));
    assert!(!both.intersects(DetectionType::ignore_level_difference()));
    assert!(both.contains(DetectionType::none()));
}

#[test]
fn hate_container_clear_one_target() {
    let mut h = HateContainer::new(1);
    h.update_hate(2, 10);
    h.update_hate(3, 10);
    h.clear_hate(Some(2));
    assert!(!h.has_hate_for(2));
    assert!(h.has_hate_for(3));
    assert!(!h.is_empty());
    h.clear_hate(None);
    assert!(h.is_empty());
}
