//! Stat modifiers of a character: a table from modifier id to value. Values
//! are `f64` in the game; the table stores and compares their IEEE-754 bit
//! patterns (`f64::to_bits`), which it only copies and never computes with.

use std::collections::HashMap;
use vstd::prelude::*;

verus! {

broadcast use vstd::std_specs::hash::group_hash_axioms;

/// Stat modifiers, numbered in declaration order from 0 (`id`).
#[derive(Debug, Clone, Copy, PartialEq, Eq)]
pub enum Modifier {
    Hp,
    Mp,
    Tp,
    Strength,
    Vitality,
    Dexterity,
    Intelligence,
    Mind,
    Piety,
    FireResistance,
    IceResistance,
    WindResistance,
    EarthResistance,
    LightningResistance,
    WaterResistance,
    Accuracy,
    Evasion,
    Attack,
    Defense,
}

impl Modifier {
    /// The modifier's number.
    pub open spec fn spec_id(self) -> u32 {
        match self {
            Modifier::Hp => 0,
            Modifier::Mp => 1,
            Modifier::Tp => 2,
            Modifier::Strength => 3,
            Modifier::Vitality => 4,
            Modifier::Dexterity => 5,
            Modifier::Intelligence => 6,
            Modifier::Mind => 7,
            Modifier::Piety => 8,
            Modifier::FireResistance => 9,
            Modifier::IceResistance => 10,
            Modifier::WindResistance => 11,
            Modifier::EarthResistance => 12,
            Modifier::LightningResistance => 13,
            Modifier::WaterResistance => 14,
            Modifier::Accuracy => 15,
            Modifier::Evasion => 16,
            Modifier::Attack => 17,
            Modifier::Defense => 18,
        }
    }

    /// The modifier's number.
    #[verifier::when_used_as_spec(spec_id)]
    pub fn id(self) -> (r: u32)
        ensures
            r == self.spec_id(),
    {
        match self {
            Modifier::Hp => 0,
            Modifier::Mp => 1,
            Modifier::Tp => 2,
            Modifier::Strength => 3,
            Modifier::Vitality => 4,
            Modifier::Dexterity => 5,
            Modifier::Intelligence => 6,
            Modifier::Mind => 7,
            Modifier::Piety => 8,
            Modifier::FireResistance => 9,
            Modifier::IceResistance => 10,
            Modifier::WindResistance => 11,
            Modifier::EarthResistance => 12,
            Modifier::LightningResistance => 13,
            Modifier::WaterResistance => 14,
            Modifier::Accuracy => 15,
            Modifier::Evasion => 16,
            Modifier::Attack => 17,
            Modifier::Defense => 18,
        }
    }
}

/// A table of modifier values (as `f64` bit patterns), keyed by modifier id.
#[derive(Debug, Clone)]
pub struct ModifierMap {
    values: HashMap<u32, u64>,
}

impl View for ModifierMap {
    type V = Map<u32, u64>;

    closed spec fn view(&self) -> Map<u32, u64> {
        self.values@
    }
}

/// The value the table gives for `id`: the stored one, or the bits of `0.0`.
pub open spec fn modifier_value(m: Map<u32, u64>, id: u32) -> u64 {
    if m.contains_key(id) {
        m[id]
    } else {
        0
    }
}

impl ModifierMap {
    /// An empty table.
    pub fn new() -> (r: Self)
        ensures
            r@ == Map::<u32, u64>::empty(),
    {
        ModifierMap { values: HashMap::new() }
    }

    /// The value stored for `id`, or the bits of `0.0`.
    pub fn get_raw(&self, id: u32) -> (r: u64)
        ensures
            r == modifier_value(self@, id),
    {
        match self.values.get(&id) {
            Some(v) => *v,
            None => 0,
        }
    }

    /// Stores `bits` for `id`, replacing any earlier value.
    pub fn set_raw(&mut self, id: u32, bits: u64)
        ensures
            final(self)@ == old(self)@.insert(id, bits),
    {
        self.values.insert(id, bits);
    }

    /// The value stored for `m`, or the bits of `0.0`.
    pub fn get(&self, m: Modifier) -> (r: u64)
        ensures
            r == modifier_value(self@, m.spec_id()),
    {
        self.get_raw(m.id())
    }

    /// Stores `bits` for `m`, replacing any earlier value.
    pub fn set(&mut self, m: Modifier, bits: u64)
        ensures
            final(self)@ == old(self)@.insert(m.spec_id(), bits),
    {
        self.set_raw(m.id(), bits)
    }

    /// A table with the same entries.
    pub fn duplicate(&self) -> (r: Self)
        ensures
            r@ == self@,
    {
        ModifierMap { values: self.values.clone() }
    }

    /// Stores every entry of `other`, each replacing the value for its id.
    pub fn overlay(&mut self, other: &ModifierMap)
        ensures
            final(self)@ == old(self)@.union_prefer_right(other@),
    {
        let ghost base = self@;
        let ghost done: Set<u32> = Set::empty();
        let ghost v = vstd::std_specs::iter::IteratorSpec::remaining(&vstd::std_specs::hash::spec_hash_map_iter(&other.values));
        let ghost mut idx: int = 0;
        for entry in it: other.values.iter()
            invariant
                base == old(self)@,
                v == vstd::std_specs::iter::IteratorSpec::remaining(&vstd::std_specs::hash::spec_hash_map_iter(&other.values)),
                it.seq() == v,
                idx == it.index(),
                self@ == base.union_prefer_right(other@.restrict(done)),
                forall|i: int| 0 <= i < idx ==> done.contains(*#[trigger] v[i].0),
                forall|k: u32| done.contains(k) ==> other@.contains_key(k),
        {
            let (k, v) = entry;
            proof {
                assert(other@.contains_key(*k) && other@[*k] == *v);
            }
            self.values.insert(*k, *v);
            proof {
                done = done.insert(*k);
                idx = idx + 1;
                assert(self@ =~= base.union_prefer_right(other@.restrict(done)));
            }
        }
        proof {
            assert forall|k: u32| other@.contains_key(k) implies done.contains(k) by {
                assert(v.contains((&k, &other.values@[k])));
                let i = choose|i: int| 0 <= i < v.len() && v[i] == (&k, &other.values@[k]);
                assert(done.contains(*v[i].0));
            }
            assert(other@.restrict(done) =~= other@);
        }
    }
}

} // verus!
