//! `BattleNpc`: a combat-capable NPC. It sits on top of `Npc` with hate
//! tracking, modifier layers (pool / genus / spawn), mob modifiers, detection
//! flags, kindred type and respawn/despawn timers. Dying, despawning and
//! respawning queue `BattleEvent`s for the dispatcher instead of sending
//! packets directly.

use crate::battle::{
    BattleControllerState, BattleEvent, BattleOutbox, Controller, ControllerKind, HateContainer,
};
use crate::database::BattleNpcSpawn;
use crate::mob_modifier::{MobModifier, MobModifierMap};
use crate::modifier::ModifierMap;
use crate::npc::{AIContainer, ActorBase, ActorClass, CharaState, Character, Npc, Vector3};
use vstd::prelude::*;

verus! {

/// Detection bitfield: how a battle NPC notices players.
#[derive(Debug, Clone, Copy, PartialEq, Eq, Default)]
pub struct DetectionType(pub u32);

impl DetectionType {
    /// No detection.
    pub fn none() -> (r: Self)
        ensures
            r == DetectionType(0x00),
    {
        DetectionType(0x00)
    }

    /// Detects by sight.
    pub fn sight() -> (r: Self)
        ensures
            r == DetectionType(0x01),
    {
        DetectionType(0x01)
    }

    /// Detects by scent.
    pub fn scent() -> (r: Self)
        ensures
            r == DetectionType(0x02),
    {
        DetectionType(0x02)
    }

    /// Detects by sound.
    pub fn sound() -> (r: Self)
        ensures
            r == DetectionType(0x04),
    {
        DetectionType(0x04)
    }

    /// Detects targets with low hit points.
    pub fn low_hp() -> (r: Self)
        ensures
            r == DetectionType(0x08),
    {
        DetectionType(0x08)
    }

    /// Detects regardless of level difference.
    pub fn ignore_level_difference() -> (r: Self)
        ensures
            r == DetectionType(0x10),
    {
        DetectionType(0x10)
    }

    /// Detects magic use.
    pub fn magic() -> (r: Self)
        ensures
            r == DetectionType(0x20),
    {
        DetectionType(0x20)
    }

    /// The raw flags.
    pub fn bits(self) -> (r: u32)
        ensures
            r == self.0,
    {
        self.0
    }

    /// Whether every flag of `other` is set in `self`.
    pub fn contains(self, other: Self) -> (r: bool)
        ensures
            r == (self.0 & other.0 == other.0),
    {
        (self.0 & other.0) == other.0
    }

    /// Whether `self` and `other` share a flag.
    pub fn intersects(self, other: Self) -> (r: bool)
        ensures
            r == (self.0 & other.0 != 0),
    {
        (self.0 & other.0) != 0
    }
}

impl core::ops::BitOr for DetectionType {
    type Output = Self;

    fn bitor(self, rhs: Self) -> (r: Self)
        ensures
            r == DetectionType(self.0 | rhs.0),
    {
        DetectionType(self.0 | rhs.0)
    }
}

impl vstd::std_specs::ops::BitOrSpecImpl for DetectionType {
    open spec fn obeys_bitor_spec() -> bool {
        true
    }

    open spec fn bitor_req(self, rhs: Self) -> bool {
        true
    }

    open spec fn bitor_spec(self, rhs: Self) -> Self {
        DetectionType(self.0 | rhs.0)
    }
}

/// The union of two detection sets contains each of them; a non-empty set
/// shares a flag with itself.
pub proof fn lemma_detection_union_contains(a: u32, b: u32)
    ensures
        (a | b) & a == a,
        (a | b) & b == b,
        a != 0 ==> a & a != 0,
{
    assert((a | b) & a == a) by (bit_vector);
    assert((a | b) & b == b) by (bit_vector);
    assert(a != 0 ==> a & a != 0) by (bit_vector);
}

/// Creature family of an NPC, used for scripted matchups.
#[derive(Debug, Clone, Copy, PartialEq, Eq, Default)]
pub enum KindredType {
    #[default]
    Unknown,
    Beast,
    Plantoid,
    Aquan,
    Spoken,
    Reptilian,
    Insect,
    Avian,
    Undead,
    Cursed,
    Voidsent,
}

/// The kindred numbered `v` in the database: 1 to 10 in declaration order
/// after `Unknown`, any other number `Unknown`.
pub open spec fn kindred_of(v: u8) -> KindredType {
    if v == 1 {
        KindredType::Beast
    } else if v == 2 {
        KindredType::Plantoid
    } else if v == 3 {
        KindredType::Aquan
    } else if v == 4 {
        KindredType::Spoken
    } else if v == 5 {
        KindredType::Reptilian
    } else if v == 6 {
        KindredType::Insect
    } else if v == 7 {
        KindredType::Avian
    } else if v == 8 {
        KindredType::Undead
    } else if v == 9 {
        KindredType::Cursed
    } else if v == 10 {
        KindredType::Voidsent
    } else {
        KindredType::Unknown
    }
}

/// The kindred a database number names is the variant with that number
/// (its discriminant), for the numbers 1 to 10; every other number names
/// `Unknown` (number 0). So each kindred is named by its own number and by no other.
pub proof fn lemma_kindred_of_matches_numbering(v: u8)
    ensures
        1 <= v <= 10 ==> kindred_of(v) as u8 == v,
        !(1 <= v <= 10) ==> kindred_of(v) == KindredType::Unknown,
        KindredType::Unknown as u8 == 0,
{
}

impl KindredType {
    /// The kindred numbered `v` (see `kindred_of`).
    pub fn from_u8(v: u8) -> (r: Self)
        ensures
            r == kindred_of(v),
            1 <= v <= 10 ==> r as u8 == v,
            !(1 <= v <= 10) ==> r == KindredType::Unknown,
    {
        match v {
            1 => KindredType::Beast,
            2 => KindredType::Plantoid,
            3 => KindredType::Aquan,
            4 => KindredType::Spoken,
            5 => KindredType::Reptilian,
            6 => KindredType::Insect,
            7 => KindredType::Avian,
            8 => KindredType::Undead,
            9 => KindredType::Cursed,
            10 => KindredType::Voidsent,
            _ => KindredType::Unknown,
        }
    }
}

/// Which modifier layer a stat value came from. Layers stack pool, genus,
/// spawn, the later winning on conflicts.
#[derive(Debug, Clone, Copy, PartialEq, Eq, Default)]
pub enum ModifierLayer {
    #[default]
    Pool,
    Genus,
    Spawn,
}

/// A combat-capable NPC.
#[derive(Debug, Clone)]
pub struct BattleNpc {
    pub npc: Npc,
    pub detection_type: DetectionType,
    pub kindred_type: KindredType,
    pub neutral: bool,
    pub despawn_time_seconds: u32,
    pub respawn_time_seconds: u32,
    pub spawn_distance: u32,
    pub bnpc_id: u32,
    pub spell_list_id: u32,
    pub skill_list_id: u32,
    pub drop_list_id: u32,
    pub pool_id: u32,
    pub genus_id: u32,
    pub pool_mods: ModifierMap,
    pub genus_mods: ModifierMap,
    pub spawn_mods: ModifierMap,
    pub mob_modifiers: MobModifierMap,
    /// Last actor to land a damaging hit (for EXP and loot); 0 when nobody has attacked.
    pub last_attacker_actor_id: u32,
}

/// The combat state a battle NPC starts with: no detection, unknown kindred,
/// hostile, a 10-second despawn timer, every id and timer else 0, empty
/// modifier layers and mob modifiers, and no attacker.
pub open spec fn has_initial_battle_state(b: BattleNpc) -> bool {
    &&& b.detection_type == DetectionType(0)
    &&& b.kindred_type == KindredType::Unknown
    &&& !b.neutral
    &&& b.despawn_time_seconds == 10
    &&& b.respawn_time_seconds == 0
    &&& b.spawn_distance == 0
    &&& b.bnpc_id == 0
    &&& b.spell_list_id == 0
    &&& b.skill_list_id == 0
    &&& b.drop_list_id == 0
    &&& b.pool_id == 0
    &&& b.genus_id == 0
    &&& b.pool_mods@ == Map::<u32, u64>::empty()
    &&& b.genus_mods@ == Map::<u32, u64>::empty()
    &&& b.spawn_mods@ == Map::<u32, u64>::empty()
    &&& b.mob_modifiers@ == Map::<u32, i64>::empty()
    &&& b.last_attacker_actor_id == 0
}

/// The NPC's hate table is owned by the NPC itself.
pub open spec fn hate_owned_by_self(b: BattleNpc) -> bool {
    b.npc.character.hate.owner_actor_id == b.npc.character.base.actor_id
}

/// `after` has the actor id of `before`, and its hate table is owned by the
/// NPC itself wherever that of `before` was.
pub open spec fn keeps_identity(before: BattleNpc, after: BattleNpc) -> bool {
    &&& after.npc.character.base.actor_id == before.npc.character.base.actor_id
    &&& hate_owned_by_self(before) ==> hate_owned_by_self(after)
}

/// Along any run of calls of `BattleNpc`'s methods (each step keeping the
/// identity, as every method's contract states) from an NPC built by `new` or
/// `from_npc` (whose hate table its own actor id owns), the actor id never
/// changes and the hate table stays owned by it.
pub proof fn lemma_identity_kept_over_calls(states: Seq<BattleNpc>)
    requires
        states.len() > 0,
        hate_owned_by_self(states[0]),
        forall|i: int| 0 <= i < states.len() - 1 ==> keeps_identity(#[trigger] states[i], states[i + 1]),
    ensures
        forall|i: int|
            0 <= i < states.len() ==> (#[trigger] states[i]).npc.character.base.actor_id
                == states[0].npc.character.base.actor_id && hate_owned_by_self(states[i]),
    decreases states.len(),
{
    if states.len() > 1 {
        let prefix = states.drop_last();
        assert forall|i: int| 0 <= i < prefix.len() - 1 implies keeps_identity(
            #[trigger] prefix[i],
            prefix[i + 1],
        ) by {
            assert(keeps_identity(states[i], states[i + 1]));
        }
        lemma_identity_kept_over_calls(prefix);
        let last = states.len() - 1;
        assert(prefix[last - 1] == states[last - 1]);
        assert(keeps_identity(states[last - 1], states[last]));
        assert forall|i: int| 0 <= i < states.len() implies (#[trigger] states[i]).npc.character.base.actor_id
            == states[0].npc.character.base.actor_id && hate_owned_by_self(states[i]) by {
            if i < last {
                assert(prefix[i] == states[i]);
            }
        }
    }
}

/// The pool, genus and spawn layers folded together, later layers winning.
pub open spec fn merged_layers(pool: Map<u32, u64>, genus: Map<u32, u64>, spawn: Map<u32, u64>) -> Map<
    u32,
    u64,
> {
    pool.union_prefer_right(genus).union_prefer_right(spawn)
}

/// In the merged layers a modifier takes its spawn value if the spawn layer
/// sets it, else its genus value if the genus layer sets it, else its pool
/// value; a modifier that no layer sets stays unset.
pub proof fn lemma_merged_layer_precedence(
    pool: Map<u32, u64>,
    genus: Map<u32, u64>,
    spawn: Map<u32, u64>,
    id: u32,
)
    ensures
        merged_layers(pool, genus, spawn).contains_key(id) <==> (pool.contains_key(id)
            || genus.contains_key(id) || spawn.contains_key(id)),
        spawn.contains_key(id) ==> merged_layers(pool, genus, spawn)[id] == spawn[id],
        !spawn.contains_key(id) && genus.contains_key(id) ==> merged_layers(pool, genus, spawn)[id]
            == genus[id],
        !spawn.contains_key(id) && !genus.contains_key(id) && pool.contains_key(id)
            ==> merged_layers(pool, genus, spawn)[id] == pool[id],
{
}

/// Folds the pool, genus and spawn layers, later layers overwriting earlier
/// ones on the same modifier.
fn merge_modifier_map(pool: &ModifierMap, genus: &ModifierMap, spawn: &ModifierMap) -> (r:
    ModifierMap)
    ensures
        r@ == merged_layers(pool@, genus@, spawn@),
{
    let mut out = pool.duplicate();
    out.overlay(genus);
    out.overlay(spawn);
    out
}

impl BattleNpc {
    /// A battle NPC wrapping `npc`, with a fresh hate table owned by its actor
    /// id and the initial combat state.
    fn with_npc(npc: Npc) -> (r: Self)
        ensures
            r.npc == (Npc {
                character: Character { hate: r.npc.character.hate, ..npc.character },
                ..npc
            }),
            r.npc.character.hate.owner_actor_id == npc.character.base.actor_id,
            r.npc.character.hate@ == Map::<u32, u64>::empty(),
            has_initial_battle_state(r),
    {
        let actor_id = npc.actor_id();
        let mut npc = npc;
        npc.character.hate = HateContainer::new(actor_id);
        BattleNpc {
            npc,
            detection_type: DetectionType(0),
            kindred_type: KindredType::Unknown,
            neutral: false,
            despawn_time_seconds: 10,
            respawn_time_seconds: 0,
            spawn_distance: 0,
            bnpc_id: 0,
            spell_list_id: 0,
            skill_list_id: 0,
            drop_list_id: 0,
            pool_id: 0,
            genus_id: 0,
            pool_mods: ModifierMap::new(),
            genus_mods: ModifierMap::new(),
            spawn_mods: ModifierMap::new(),
            mob_modifiers: MobModifierMap::new(),
            last_attacker_actor_id: 0,
        }
    }

    /// A battle NPC built as `Npc::new` builds an NPC (positions and rotation
    /// as `f32` bit patterns), its spawn point at its position, with a fresh
    /// hate table owned by its actor id and the initial combat state.
    pub fn new(
        actor_number: u32,
        actor_class: &ActorClass,
        unique_id: String,
        area_id: u32,
        x: u32,
        y: u32,
        z: u32,
        rotation: u32,
        actor_state: u16,
        animation_id: u32,
        custom_display_name: Option<String>,
    ) -> (r: Self)
        ensures
            hate_owned_by_self(r),
            r.npc.actor_number == actor_number,
            r.npc.actor_class_id == actor_class.actor_class_id,
            r.npc.class_path@ == actor_class.class_path@,
            r.npc.display_name_id == actor_class.display_name_id,
            r.npc.unique_id == unique_id,
            r.npc.custom_display_name == custom_display_name,
            r.npc.character.base == (ActorBase {
                actor_id: crate::npc::npc_actor_id(area_id, actor_number),
                area_id,
                position_x: x,
                position_y: y,
                position_z: z,
                rotation,
                actor_state,
                animation_id,
            }),
            r.npc.character.chara.hp == 0,
            r.npc.character.chara.max_hp == 0,
            r.npc.character.chara.level == 1,
            r.npc.character.chara.spawn_x == x,
            r.npc.character.chara.spawn_y == y,
            r.npc.character.chara.spawn_z == z,
            r.npc.character.chara.mods@ == Map::<u32, u64>::empty(),
            r.npc.character.hate.owner_actor_id == r.npc.character.base.actor_id,
            r.npc.character.hate@ == Map::<u32, u64>::empty(),
            r.npc.character.ai_container.controller is None,
            has_initial_battle_state(r),
    {
        let mut npc = Npc::new(
            actor_number,
            actor_class,
            unique_id,
            area_id,
            x,
            y,
            z,
            rotation,
            actor_state,
            animation_id,
            custom_display_name,
        );
        npc.character.chara.spawn_x = x;
        npc.character.chara.spawn_y = y;
        npc.character.chara.spawn_z = z;
        Self::with_npc(npc)
    }

    /// A battle NPC wrapping `npc`, with a fresh hate table owned by its actor
    /// id and the initial combat state; the rest of `npc` is kept.
    pub fn from_npc(npc: Npc) -> (r: Self)
        ensures
            hate_owned_by_self(r),
            r.npc == (Npc {
                character: Character { hate: r.npc.character.hate, ..npc.character },
                ..npc
            }),
            r.npc.character.hate.owner_actor_id == npc.character.base.actor_id,
            r.npc.character.hate@ == Map::<u32, u64>::empty(),
            has_initial_battle_state(r),
    {
        Self::with_npc(npc)
    }

    /// The NPC's actor id.
    pub fn actor_id(&self) -> (r: u32)
        ensures
            r == self.npc.character.base.actor_id,
    {
        self.npc.actor_id()
    }

    /// The detection flags.
    pub fn get_detection_type(&self) -> (r: u32)
        ensures
            r == self.detection_type.0,
    {
        self.detection_type.bits()
    }

    /// Replaces the detection flags.
    pub fn set_detection_type(&mut self, v: u32)
        ensures
            keeps_identity(*old(self), *final(self)),
            *final(self) == (BattleNpc { detection_type: DetectionType(v), ..*old(self) }),
    {
        self.detection_type = DetectionType(v);
    }

    /// Applies the combat metadata of a spawn row and attaches the AI
    /// controller: an ally controller for allegiance 1, a battle-NPC
    /// controller otherwise. The NPC is neutral when its aggro type is 0 or
    /// its allegiance is 1, and the controller mirrors its detection flags,
    /// neutrality, level and the spawn row's position.
    pub fn apply_spawn_metadata(&mut self, spawn: &BattleNpcSpawn, bnpc_id: u32, actor_id: u32)
        ensures
            keeps_identity(*old(self), *final(self)),
            *final(self) == (BattleNpc {
                bnpc_id,
                pool_id: spawn.pool_id,
                genus_id: spawn.genus_id,
                drop_list_id: spawn.drop_list_id,
                respawn_time_seconds: spawn.respawn_time,
                detection_type: DetectionType(spawn.detection),
                neutral: spawn.aggro_type == 0 || spawn.allegiance == 1,
                kindred_type: kindred_of(spawn.kindred_id),
                npc: Npc {
                    character: Character {
                        ai_container: AIContainer {
                            controller: Some(
                                Controller {
                                    kind: if spawn.allegiance == 1 {
                                        ControllerKind::Ally
                                    } else {
                                        ControllerKind::BattleNpc
                                    },
                                    owner_actor_id: actor_id,
                                    battle: BattleControllerState {
                                        detection_type: DetectionType(spawn.detection),
                                        neutral: spawn.aggro_type == 0 || spawn.allegiance == 1,
                                        level: old(self).npc.character.chara.level,
                                        spawn_position: Vector3 {
                                            x: spawn.position_x,
                                            y: spawn.position_y,
                                            z: spawn.position_z,
                                        },
                                    },
                                },
                            ),
                        },
                        ..old(self).npc.character
                    },
                    ..old(self).npc
                },
                ..*old(self)
            }),
    {
        self.bnpc_id = bnpc_id;
        self.pool_id = spawn.pool_id;
        self.genus_id = spawn.genus_id;
        self.drop_list_id = spawn.drop_list_id;
        self.respawn_time_seconds = spawn.respawn_time;
        self.detection_type = DetectionType(spawn.detection);
        self.neutral = spawn.aggro_type == 0 || spawn.allegiance == 1;
        self.kindred_type = KindredType::from_u8(spawn.kindred_id);
        let controller_kind = if spawn.allegiance == 1 {
            ControllerKind::Ally
        } else {
            ControllerKind::BattleNpc
        };
        let mut ctrl = Controller::new(controller_kind, actor_id);
        ctrl.battle.detection_type = DetectionType(self.detection_type.0);
        ctrl.battle.neutral = self.neutral;
        ctrl.battle.level = self.npc.character.chara.level;
        ctrl.battle.spawn_position = Vector3::new(spawn.position_x, spawn.position_y, spawn.position_z);
        self.npc.character.ai_container.controller = Some(ctrl);
    }

    /// The value of mob modifier `m` (0 when unset).
    pub fn get_mob_mod(&self, m: MobModifier) -> (r: i64)
        ensures
            r == crate::mob_modifier::mob_modifier_value(self.mob_modifiers@, m.spec_id()),
    {
        self.mob_modifiers.get(m)
    }

    /// Sets mob modifier `m` to `v`.
    pub fn set_mob_mod(&mut self, m: MobModifier, v: i64)
        ensures
            keeps_identity(*old(self), *final(self)),
            final(self).mob_modifiers@ == old(self).mob_modifiers@.insert(m.spec_id(), v),
            *final(self) == (BattleNpc { mob_modifiers: final(self).mob_modifiers, ..*old(self) }),
    {
        self.mob_modifiers.set(m, v);
    }

    /// Seconds before the corpse despawns.
    pub fn get_despawn_time(&self) -> (r: u32)
        ensures
            r == self.despawn_time_seconds,
    {
        self.despawn_time_seconds
    }

    /// Sets the seconds before the corpse despawns.
    pub fn set_despawn_time(&mut self, seconds: u32)
        ensures
            keeps_identity(*old(self), *final(self)),
            *final(self) == (BattleNpc { despawn_time_seconds: seconds, ..*old(self) }),
    {
        self.despawn_time_seconds = seconds;
    }

    /// Seconds before the NPC respawns.
    pub fn get_respawn_time(&self) -> (r: u32)
        ensures
            r == self.respawn_time_seconds,
    {
        self.respawn_time_seconds
    }

    /// Sets the seconds before the NPC respawns.
    pub fn set_respawn_time(&mut self, seconds: u32)
        ensures
            keeps_identity(*old(self), *final(self)),
            *final(self) == (BattleNpc { respawn_time_seconds: seconds, ..*old(self) }),
    {
        self.respawn_time_seconds = seconds;
    }

    /// Folds the pool, genus and spawn modifier layers into the character's
    /// modifiers, later layers winning on the same modifier.
    pub fn merge_modifier_layers(&mut self)
        ensures
            keeps_identity(*old(self), *final(self)),
            final(self).npc.character.chara.mods@ == merged_layers(
                old(self).pool_mods@,
                old(self).genus_mods@,
                old(self).spawn_mods@,
            ),
            *final(self) == (BattleNpc {
                npc: Npc {
                    character: Character {
                        chara: CharaState {
                            mods: final(self).npc.character.chara.mods,
                            ..old(self).npc.character.chara
                        },
                        ..old(self).npc.character
                    },
                    ..old(self).npc
                },
                ..*old(self)
            }),
    {
        let merged = merge_modifier_map(&self.pool_mods, &self.genus_mods, &self.spawn_mods);
        self.npc.character.chara.mods = merged;
    }

    /// Puts the NPC back at its spawn point with full hit points, forgets all
    /// hate and the last attacker, and queues a `Spawn` event.
    pub fn force_respawn(&mut self, outbox: &mut BattleOutbox)
        ensures
            keeps_identity(*old(self), *final(self)),
            final(outbox).events@ == old(outbox).events@.push(
                BattleEvent::Spawn { owner_actor_id: old(self).npc.character.base.actor_id },
            ),
            final(self).npc.character.hate.owner_actor_id
                == old(self).npc.character.hate.owner_actor_id,
            final(self).npc.character.hate@ == Map::<u32, u64>::empty(),
            *final(self) == (BattleNpc {
                npc: Npc {
                    character: Character {
                        base: ActorBase {
                            position_x: old(self).npc.character.chara.spawn_x,
                            position_y: old(self).npc.character.chara.spawn_y,
                            position_z: old(self).npc.character.chara.spawn_z,
                            ..old(self).npc.character.base
                        },
                        chara: CharaState {
                            hp: old(self).npc.character.chara.max_hp,
                            ..old(self).npc.character.chara
                        },
                        hate: final(self).npc.character.hate,
                        ..old(self).npc.character
                    },
                    ..old(self).npc
                },
                last_attacker_actor_id: 0,
                ..*old(self)
            }),
    {
        self.npc.character.base.position_x = self.npc.character.chara.spawn_x;
        self.npc.character.base.position_y = self.npc.character.chara.spawn_y;
        self.npc.character.base.position_z = self.npc.character.chara.spawn_z;
        let max_hp = self.npc.character.chara.max_hp;
        self.npc.character.chara.hp = max_hp;
        self.npc.character.hate.clear_hate(None);
        self.last_attacker_actor_id = 0;
        outbox.push(BattleEvent::Spawn { owner_actor_id: self.actor_id() });
    }

    /// Sets the hit points to 0 and queues a `Die` event.
    pub fn die(&mut self, outbox: &mut BattleOutbox)
        ensures
            keeps_identity(*old(self), *final(self)),
            final(outbox).events@ == old(outbox).events@.push(
                BattleEvent::Die { owner_actor_id: old(self).npc.character.base.actor_id },
            ),
            *final(self) == (BattleNpc {
                npc: Npc {
                    character: Character {
                        chara: CharaState { hp: 0, ..old(self).npc.character.chara },
                        ..old(self).npc.character
                    },
                    ..old(self).npc
                },
                ..*old(self)
            }),
    {
        self.npc.character.chara.hp = 0;
        outbox.push(BattleEvent::Die { owner_actor_id: self.actor_id() });
    }

    /// Queues a `Despawn` event; the NPC itself is unchanged.
    pub fn despawn(&mut self, outbox: &mut BattleOutbox)
        ensures
            keeps_identity(*old(self), *final(self)),
            final(outbox).events@ == old(outbox).events@.push(
                BattleEvent::Despawn { owner_actor_id: old(self).npc.character.base.actor_id },
            ),
            *final(self) == *old(self),
    {
        outbox.push(BattleEvent::Despawn { owner_actor_id: self.actor_id() });
    }

    /// Records a landed hit by `attacker_actor_id`: it becomes the last
    /// attacker and gains one point of hate. The engagement continues.
    pub fn on_attack(&mut self, attacker_actor_id: u32) -> (r: bool)
        ensures
            keeps_identity(*old(self), *final(self)),
            r,
            final(self).npc.character.hate.owner_actor_id
                == old(self).npc.character.hate.owner_actor_id,
            final(self).npc.character.hate@ == old(self).npc.character.hate@.insert(
                attacker_actor_id,
                (if old(self).npc.character.hate@.contains_key(attacker_actor_id) {
                    old(self).npc.character.hate@[attacker_actor_id]
                } else {
                    0
                }).saturating_add(1),
            ),
            *final(self) == (BattleNpc {
                npc: Npc {
                    character: Character {
                        hate: final(self).npc.character.hate,
                        ..old(self).npc.character
                    },
                    ..old(self).npc
                },
                last_attacker_actor_id: attacker_actor_id,
                ..*old(self)
            }),
    {
        self.last_attacker_actor_id = attacker_actor_id;
        self.npc.character.hate.update_hate(attacker_actor_id, 1);
        true
    }
}

} // verus!
