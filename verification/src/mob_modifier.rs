//! Mob modifiers: per-NPC behaviour settings (sight range, leash, scripts, ...)
//! held as integers in a table keyed by modifier.

use std::collections::HashMap;
use vstd::prelude::*;

verus! {

broadcast use vstd::std_specs::hash::group_hash_axioms;

/// Mob modifiers, numbered in declaration order from 0 (`id`).
#[derive(Debug, Clone, Copy, PartialEq, Eq)]
pub enum MobModifier {
    NoModifier,
    SpawnLeash,
    SightRange,
    SoundRange,
    BuffChance,
    HealChance,
    SkillUseChance,
    LinkRadius,
    MagicDelay,
    SpecialDelay,
    ExpBonus,
    IgnoreSpawnLeash,
    DrawIn,
    HpScale,
    Assist,
    NoMove,
    ShareTarget,
    AttackScript,
    DefendScript,
    SpellScript,
    WeaponSkillScript,
    AbilityScript,
    CallForHelp,
    FreeForAll,
    Roams,
    RoamDelay,
    Linked,
}

impl MobModifier {
    /// The modifier's number.
    pub open spec fn spec_id(self) -> u32 {
        match self {
            MobModifier::NoModifier => 0,
            MobModifier::SpawnLeash => 1,
            MobModifier::SightRange => 2,
            MobModifier::SoundRange => 3,
            MobModifier::BuffChance => 4,
            MobModifier::HealChance => 5,
            MobModifier::SkillUseChance => 6,
            MobModifier::LinkRadius => 7,
            MobModifier::MagicDelay => 8,
            MobModifier::SpecialDelay => 9,
            MobModifier::ExpBonus => 10,
            MobModifier::IgnoreSpawnLeash => 11,
            MobModifier::DrawIn => 12,
            MobModifier::HpScale => 13,
            MobModifier::Assist => 14,
            MobModifier::NoMove => 15,
            MobModifier::ShareTarget => 16,
            MobModifier::AttackScript => 17,
            MobModifier::DefendScript => 18,
            MobModifier::SpellScript => 19,
            MobModifier::WeaponSkillScript => 20,
            MobModifier::AbilityScript => 21,
            MobModifier::CallForHelp => 22,
            MobModifier::FreeForAll => 23,
            MobModifier::Roams => 24,
            MobModifier::RoamDelay => 25,
            MobModifier::Linked => 26,
        }
    }

    /// The modifier's number.
    #[verifier::when_used_as_spec(spec_id)]
    pub fn id(self) -> (r: u32)
        ensures
            r == self.spec_id(),
    {
        match self {
            MobModifier::NoModifier => 0,
            MobModifier::SpawnLeash => 1,
            MobModifier::SightRange => 2,
            MobModifier::SoundRange => 3,
            MobModifier::BuffChance => 4,
            MobModifier::HealChance => 5,
            MobModifier::SkillUseChance => 6,
            MobModifier::LinkRadius => 7,
            MobModifier::MagicDelay => 8,
            MobModifier::SpecialDelay => 9,
            MobModifier::ExpBonus => 10,
            MobModifier::IgnoreSpawnLeash => 11,
            MobModifier::DrawIn => 12,
            MobModifier::HpScale => 13,
            MobModifier::Assist => 14,
            MobModifier::NoMove => 15,
            MobModifier::ShareTarget => 16,
            MobModifier::AttackScript => 17,
            MobModifier::DefendScript => 18,
            MobModifier::SpellScript => 19,
            MobModifier::WeaponSkillScript => 20,
            MobModifier::AbilityScript => 21,
            MobModifier::CallForHelp => 22,
            MobModifier::FreeForAll => 23,
            MobModifier::Roams => 24,
            MobModifier::RoamDelay => 25,
            MobModifier::Linked => 26,
        }
    }
}

/// A table of mob-modifier values keyed by modifier number; absent ones read 0.
#[derive(Debug, Clone)]
pub struct MobModifierMap {
    values: HashMap<u32, i64>,
}

impl View for MobModifierMap {
    type V = Map<u32, i64>;

    closed spec fn view(&self) -> Map<u32, i64> {
        self.values@
    }
}

/// The value the table gives for modifier number `id`: the stored one, or 0.
pub open spec fn mob_modifier_value(m: Map<u32, i64>, id: u32) -> i64 {
    if m.contains_key(id) {
        m[id]
    } else {
        0
    }
}

impl MobModifierMap {
    /// An empty table.
    pub fn new() -> (r: Self)
        ensures
            r@ == Map::<u32, i64>::empty(),
    {
        MobModifierMap { values: HashMap::new() }
    }

    /// The value stored for `m`, or 0.
    pub fn get(&self, m: MobModifier) -> (r: i64)
        ensures
            r == mob_modifier_value(self@, m.spec_id()),
    {
        match self.values.get(&m.id()) {
            Some(v) => *v,
            None => 0,
        }
    }

    /// Stores `v` for `m`, replacing any earlier value.
    pub fn set(&mut self, m: MobModifier, v: i64)
        ensures
            final(self)@ == old(self)@.insert(m.spec_id(), v),
    {
        self.values.insert(m.id(), v);
    }
}

/// Setting a mob modifier and reading it back gives the value set; reading
/// another modifier gives what it gave before.
pub proof fn lemma_mob_modifier_set_get(m: Map<u32, i64>, set: MobModifier, v: i64, read: MobModifier)
    ensures
        mob_modifier_value(m.insert(set.spec_id(), v), read.spec_id()) == if read == set {
            v
        } else {
            mob_modifier_value(m, read.spec_id())
        },
{
}

} // verus!
