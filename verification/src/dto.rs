//! The inbound messages, as the ingest layer hands them over.
use vstd::prelude::*;

verus! {

/// A raw unit descriptor: the GUID under which the game server knows a unit.
#[derive(Clone, Copy, Debug, PartialEq, Eq)]
pub struct Unit {
    pub unit_id: u64,
}

/// A unit entered or left combat.
#[derive(Clone, Copy, Debug, PartialEq, Eq)]
pub struct CombatState {
    pub unit: Unit,
    pub in_combat: bool,
}

/// A unit looted an item.
#[derive(Clone, Copy, Debug, PartialEq, Eq)]
pub struct Loot {
    pub unit: Unit,
    pub item_id: u32,
}

/// Where a unit is: the map, the instance on it, and the place.
#[derive(Clone, Copy, Debug, PartialEq, Eq)]
pub struct Position {
    pub unit: Unit,
    pub map_id: u32,
    pub instance_id: u32,
    pub map_difficulty: u8,
    pub x: i32,
    pub y: i32,
    pub z: i32,
    pub orientation: i32,
}

/// How much of a power a unit has; `power_type` is the number of the
/// power on the wire.
#[derive(Clone, Copy, Debug, PartialEq, Eq)]
pub struct Power {
    pub unit: Unit,
    pub power_type: u8,
    pub current_power: u32,
    pub max_power: u32,
}

/// `caster` put an aura on `target`.
#[derive(Clone, Copy, Debug, PartialEq, Eq)]
pub struct AuraApplication {
    pub target: Unit,
    pub caster: Unit,
    pub spell_id: u32,
    pub stack_amount: u8,
}

/// A unit died, by the hand of `cause` where that is known.
#[derive(Clone, Copy, Debug, PartialEq, Eq)]
pub struct Death {
    pub victim: Unit,
    pub cause: Option<Unit>,
}

/// `owner` summoned `unit`.
#[derive(Clone, Copy, Debug, PartialEq, Eq)]
pub struct Summon {
    pub owner: Unit,
    pub unit: Unit,
}

/// A unit cast a spell.
#[derive(Clone, Copy, Debug, PartialEq, Eq)]
pub struct SpellCast {
    pub caster: Unit,
    pub spell_id: u32,
    pub target: Option<Unit>,
}

/// One hit, melee or spell.  `hit_mask` is a union of the `HIT_*` bits of
/// [`crate::domain_value`]; a melee hit has no `spell_id`.
#[derive(Clone, Copy, Debug, PartialEq, Eq)]
pub struct DamageDone {
    pub attacker: Unit,
    pub victim: Unit,
    pub spell_id: Option<u32>,
    pub amount: u32,
    pub hit_mask: u32,
    pub blocked: u32,
    pub resisted: u32,
    pub absorbed: u32,
}

/// One heal; `overheal` and `absorb` are the parts of `amount` that healed
/// nothing.
#[derive(Clone, Copy, Debug, PartialEq, Eq)]
pub struct HealDone {
    pub caster: Unit,
    pub target: Unit,
    pub spell_id: u32,
    pub amount: u32,
    pub overheal: u32,
    pub absorb: u32,
}

/// A change of the threat that `threater` has towards `target`.
#[derive(Clone, Copy, Debug, PartialEq, Eq)]
pub struct Threat {
    pub threater: Unit,
    pub target: Unit,
    pub spell_id: Option<u32>,
    pub amount: i32,
}

/// The cast of a spell by `target` was interrupted.
#[derive(Clone, Copy, Debug, PartialEq, Eq)]
pub struct Interrupt {
    pub target: Unit,
    pub interrupted_spell_id: u32,
}

/// `aura_caster` dispelled an aura from `target`.
#[derive(Clone, Copy, Debug, PartialEq, Eq)]
pub struct Dispel {
    pub aura_caster: Unit,
    pub target: Unit,
    pub dispelled_spell_id: u32,
    pub target_spell_id: Option<u32>,
}

/// `aura_caster` stole an aura from `target`.
#[derive(Clone, Copy, Debug, PartialEq, Eq)]
pub struct SpellSteal {
    pub aura_caster: Unit,
    pub target: Unit,
    pub spell_id: u32,
}

/// A miscellaneous unit event; `event_type` `0` is a threat wipe.
#[derive(Clone, Copy, Debug, PartialEq, Eq)]
pub struct Event {
    pub unit: Unit,
    pub event_type: u8,
}

/// The start of an unrated arena match or of a battleground.
#[derive(Clone, Copy, Debug, PartialEq, Eq)]
pub struct InstanceStart {
    pub map_id: u32,
    pub instance_id: u32,
}

/// The start of a rated arena match between two teams.
#[derive(Clone, Copy, Debug, PartialEq, Eq)]
pub struct InstanceStartRatedArena {
    pub map_id: u32,
    pub instance_id: u32,
    pub team_id1: u64,
    pub team_id2: u64,
}

/// The end of an unrated arena match.
#[derive(Clone, Copy, Debug, PartialEq, Eq)]
pub struct Instance {
    pub map_id: u32,
    pub instance_id: u32,
    pub winner: Option<u8>,
}

/// The end of a rated arena match, with what it did to the ratings of
/// the two teams.
#[derive(Clone, Copy, Debug, PartialEq, Eq)]
pub struct InstanceArena {
    pub map_id: u32,
    pub instance_id: u32,
    pub winner: Option<u8>,
    pub team_id1: u64,
    pub team_id2: u64,
    pub team_change1: i32,
    pub team_change2: i32,
}

/// The end of a battleground, with the scores.
#[derive(Clone, Copy, Debug, PartialEq, Eq)]
pub struct InstanceBattleground {
    pub map_id: u32,
    pub instance_id: u32,
    pub winner: Option<u8>,
    pub score_alliance: u32,
    pub score_horde: u32,
}

/// What a message says.
#[derive(Clone, Copy, Debug, PartialEq, Eq)]
pub enum MessageType {
    CombatState(CombatState),
    Loot(Loot),
    Position(Position),
    Power(Power),
    AuraApplication(AuraApplication),
    Death(Death),
    Summon(Summon),
    SpellCast(SpellCast),
    MeleeDamage(DamageDone),
    SpellDamage(DamageDone),
    Heal(HealDone),
    Threat(Threat),
    Interrupt(Interrupt),
    Dispel(Dispel),
    SpellSteal(SpellSteal),
    Event(Event),
    InstancePvPStartUnratedArena(InstanceStart),
    InstancePvPStartRatedArena(InstanceStartRatedArena),
    InstancePvPStartBattleground(InstanceStart),
    InstancePvPEndUnratedArena(Instance),
    InstancePvPEndRatedArena(InstanceArena),
    InstancePvPEndBattleground(InstanceBattleground),
}

/// One message of the game server.  `timestamp` is in milliseconds;
/// only `api_version` `0` is understood.
#[derive(Clone, Copy, Debug, PartialEq, Eq)]
pub struct Message {
    pub api_version: u8,
    pub message_length: u8,
    pub timestamp: u64,
    pub message_type: MessageType,
}

/// What can go wrong while a unit or a team is looked up.
#[derive(Clone, Copy, Debug, PartialEq, Eq)]
pub enum LiveDataProcessorFailure {
    /// The armory does not know the character or team.
    NotFound,
    /// The GUID names no kind of unit that has a template entry.
    InvalidInput,
}

impl MessageType {
    /// The unit to which a message is attributed; messages about an
    /// instance as a whole have none.
    pub open spec fn spec_extract_subject(self) -> Option<Unit> {
        match self {
            MessageType::CombatState(m) => Some(m.unit),
            MessageType::Loot(m) => Some(m.unit),
            MessageType::Position(m) => Some(m.unit),
            MessageType::Power(m) => Some(m.unit),
            MessageType::AuraApplication(m) => Some(m.target),
            MessageType::Death(m) => Some(m.victim),
            MessageType::Summon(m) => Some(m.owner),
            MessageType::SpellCast(m) => Some(m.caster),
            MessageType::MeleeDamage(m) => Some(m.attacker),
            MessageType::SpellDamage(m) => Some(m.attacker),
            MessageType::Heal(m) => Some(m.caster),
            MessageType::Threat(m) => Some(m.threater),
            MessageType::Interrupt(m) => Some(m.target),
            MessageType::Dispel(m) => Some(m.aura_caster),
            MessageType::SpellSteal(m) => Some(m.aura_caster),
            MessageType::Event(m) => Some(m.unit),
            _ => None,
        }
    }

    /// The unit to which a message is attributed.
    pub fn extract_subject(&self) -> (r: Option<Unit>)
        ensures
            r == self.spec_extract_subject(),
    {
        match self {
            MessageType::CombatState(m) => Some(m.unit),
            MessageType::Loot(m) => Some(m.unit),
            MessageType::Position(m) => Some(m.unit),
            MessageType::Power(m) => Some(m.unit),
            MessageType::AuraApplication(m) => Some(m.target),
            MessageType::Death(m) => Some(m.victim),
            MessageType::Summon(m) => Some(m.owner),
            MessageType::SpellCast(m) => Some(m.caster),
            MessageType::MeleeDamage(m) => Some(m.attacker),
            MessageType::SpellDamage(m) => Some(m.attacker),
            MessageType::Heal(m) => Some(m.caster),
            MessageType::Threat(m) => Some(m.threater),
            MessageType::Interrupt(m) => Some(m.target),
            MessageType::Dispel(m) => Some(m.aura_caster),
            MessageType::SpellSteal(m) => Some(m.aura_caster),
            MessageType::Event(m) => Some(m.unit),
            _ => None,
        }
    }

    /// Whether the message can open or extend a spell: a cast, a hit, a
    /// heal or a threat change.
    pub open spec fn spec_is_spell_family(self) -> bool {
        self is SpellCast || self is MeleeDamage || self is SpellDamage || self is Heal
            || self is Threat
    }

    /// Whether the message can open or extend a spell.
    pub fn is_spell_family(&self) -> (b: bool)
        ensures
            b == self.spec_is_spell_family(),
    {
        match self {
            MessageType::SpellCast(_) => true,
            MessageType::MeleeDamage(_) => true,
            MessageType::SpellDamage(_) => true,
            MessageType::Heal(_) => true,
            MessageType::Threat(_) => true,
            _ => false,
        }
    }
}

impl Message {
    /// The GUID that keys the buffer into which this message goes.
    pub open spec fn spec_subject_id(self) -> Option<u64> {
        match self.message_type.spec_extract_subject() {
            Some(unit) => Some(unit.unit_id),
            None => None,
        }
    }

    /// The GUID that keys the buffer into which this message goes.
    pub fn subject_id(&self) -> (r: Option<u64>)
        ensures
            r == self.spec_subject_id(),
    {
        match self.message_type.extract_subject() {
            Some(unit) => Some(unit.unit_id),
            None => None,
        }
    }
}

} // verus!
