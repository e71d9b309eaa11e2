//! The values of the event log: resolved units, committed events, and the
//! record of an active instance.
use vstd::prelude::*;

verus! {

/// The attack landed as an ordinary hit.
pub const HIT_MASK_HIT: u32 = 0x001;

/// The attack landed as a critical hit.
pub const HIT_MASK_CRIT: u32 = 0x002;

/// The attack missed.
pub const HIT_MASK_MISS: u32 = 0x004;

/// The attack was resisted, in part or in whole.
pub const HIT_MASK_RESIST: u32 = 0x008;

/// The victim is immune.
pub const HIT_MASK_IMMUNE: u32 = 0x010;

/// The attack was blocked, in part or in whole.
pub const HIT_MASK_BLOCK: u32 = 0x020;

/// The attack was dodged.
pub const HIT_MASK_DODGE: u32 = 0x040;

/// The attack was parried.
pub const HIT_MASK_PARRY: u32 = 0x080;

/// The attack was absorbed, in part or in whole.
pub const HIT_MASK_ABSORB: u32 = 0x100;

/// A character.  `is_owner_player_controlled` tells that the unit seen on
/// the wire was a summon of this character, not the character itself.
#[derive(Clone, Copy, Debug, PartialEq, Eq)]
pub struct Player {
    pub character_id: u32,
    pub history_id: Option<u32>,
    pub is_owner_player_controlled: bool,
}

/// A creature, pet or vehicle: its template entry and its GUID.
#[derive(Clone, Copy, Debug, PartialEq, Eq)]
pub struct Creature {
    pub entry: u32,
    pub guid: u64,
}

/// A resolved unit.
#[derive(Clone, Copy, Debug, PartialEq, Eq)]
pub enum Unit {
    Player(Player),
    Creature(Creature),
}

impl Unit {
    /// Whether two resolved units are the same value.
    pub fn same(&self, other: &Unit) -> (b: bool)
        ensures
            b == (*self == *other),
    {
        match (self, other) {
            (Unit::Player(a), Unit::Player(b)) => {
                let same_history = match (a.history_id, b.history_id) {
                    (Some(x), Some(y)) => x == y,
                    (None, None) => true,
                    _ => false,
                };
                a.character_id == b.character_id && same_history && a.is_owner_player_controlled
                    == b.is_owner_player_controlled
            },
            (Unit::Creature(a), Unit::Creature(b)) => a.entry == b.entry && a.guid == b.guid,
            _ => false,
        }
    }
}

/// What one hit did to one victim.  The victim is `None` where it could not
/// be resolved.
#[derive(Clone, Copy, Debug, PartialEq, Eq)]
pub struct DamageComponent {
    pub victim: Option<Unit>,
    pub amount: u32,
    pub hit_mask: u32,
    pub blocked: u32,
    pub resisted: u32,
    pub absorbed: u32,
}

/// The healing of one spell, summed over its heal messages; `target` is
/// that of the first of them.
#[derive(Clone, Copy, Debug, PartialEq, Eq)]
pub struct Heal {
    pub target: Option<Unit>,
    pub amount: u32,
    pub overheal: u32,
    pub absorb: u32,
}

/// The threat of one spell, summed over its threat messages; `target` is
/// that of the first of them.
#[derive(Clone, Copy, Debug, PartialEq, Eq)]
pub struct Threat {
    pub target: Option<Unit>,
    pub amount: i32,
}

/// A spell with everything it did.  A spell that no cast message announced
/// has the spell id of its first message, `0` where that has none.
#[derive(Clone, Debug, PartialEq, Eq)]
pub struct SpellCast {
    pub spell_id: u32,
    pub target: Option<Unit>,
    pub hit_mask: u32,
    pub damages: Vec<DamageComponent>,
    pub heal: Option<Heal>,
    pub threat: Option<Threat>,
}

/// The model of a [`SpellCast`].
pub struct SpellCastView {
    pub spell_id: u32,
    pub target: Option<Unit>,
    pub hit_mask: u32,
    pub damages: Seq<DamageComponent>,
    pub heal: Option<Heal>,
    pub threat: Option<Threat>,
}

impl View for SpellCast {
    type V = SpellCastView;

    open spec fn view(&self) -> SpellCastView {
        SpellCastView {
            spell_id: self.spell_id,
            target: self.target,
            hit_mask: self.hit_mask,
            damages: self.damages@,
            heal: self.heal,
            threat: self.threat,
        }
    }
}

/// Where a unit stands and which way it faces.
#[derive(Clone, Copy, Debug, PartialEq, Eq)]
pub struct Position {
    pub x: i32,
    pub y: i32,
    pub z: i32,
    pub orientation: i32,
}

/// The kind of power that a unit spends.
#[derive(Clone, Copy, Debug, PartialEq, Eq)]
pub enum PowerType {
    Mana,
    Rage,
    Focus,
    Energy,
    Happiness,
    Rune,
    RunicPower,
}

impl PowerType {
    /// The power type behind its number on the wire, `0` to `6`.
    pub open spec fn spec_from_u8(n: u8) -> Option<PowerType> {
        if n == 0 {
            Some(PowerType::Mana)
        } else if n == 1 {
            Some(PowerType::Rage)
        } else if n == 2 {
            Some(PowerType::Focus)
        } else if n == 3 {
            Some(PowerType::Energy)
        } else if n == 4 {
            Some(PowerType::Happiness)
        } else if n == 5 {
            Some(PowerType::Rune)
        } else if n == 6 {
            Some(PowerType::RunicPower)
        } else {
            None
        }
    }

    /// The power type behind its number on the wire; `None` for a number
    /// above `6`.
    pub fn from_u8(n: u8) -> (r: Option<PowerType>)
        ensures
            r == Self::spec_from_u8(n),
    {
        if n == 0 {
            Some(PowerType::Mana)
        } else if n == 1 {
            Some(PowerType::Rage)
        } else if n == 2 {
            Some(PowerType::Focus)
        } else if n == 3 {
            Some(PowerType::Energy)
        } else if n == 4 {
            Some(PowerType::Happiness)
        } else if n == 5 {
            Some(PowerType::Rune)
        } else if n == 6 {
            Some(PowerType::RunicPower)
        } else {
            None
        }
    }
}

/// How much of a power a unit has, and how much it can have.
#[derive(Clone, Copy, Debug, PartialEq, Eq)]
pub struct Power {
    pub power_type: PowerType,
    pub max_power: u32,
    pub current_power: u32,
}

/// An aura that `caster` put on the subject of the event.
#[derive(Clone, Copy, Debug, PartialEq, Eq)]
pub struct AuraApplication {
    pub caster: Unit,
    pub stack_amount: u8,
    pub spell_id: u32,
}

/// What happened, with the references to earlier events resolved.
#[derive(Clone, Debug, PartialEq, Eq)]
pub enum EventType {
    SpellCast(SpellCast),
    CombatState { in_combat: bool },
    Loot { item_id: u32 },
    Position(Position),
    Power(Power),
    AuraApplication(AuraApplication),
    Death { murder: Option<Unit> },
    Summon { summoned: Unit },
    ThreatWipe,
    Interrupt { cause_event_id: u32, interrupted_spell_id: u32 },
    Dispel { cause_event_id: u32, target_event_ids: Vec<u32> },
    SpellSteal { cause_event_id: u32, target_event_id: u32 },
}

/// The model of an [`EventType`].
pub enum EventTypeView {
    SpellCast(SpellCastView),
    CombatState { in_combat: bool },
    Loot { item_id: u32 },
    Position(Position),
    Power(Power),
    AuraApplication(AuraApplication),
    Death { murder: Option<Unit> },
    Summon { summoned: Unit },
    ThreatWipe,
    Interrupt { cause_event_id: u32, interrupted_spell_id: u32 },
    Dispel { cause_event_id: u32, target_event_ids: Seq<u32> },
    SpellSteal { cause_event_id: u32, target_event_id: u32 },
}

impl View for EventType {
    type V = EventTypeView;

    open spec fn view(&self) -> EventTypeView {
        match *self {
            EventType::SpellCast(spell) => EventTypeView::SpellCast(spell@),
            EventType::CombatState { in_combat } => EventTypeView::CombatState { in_combat },
            EventType::Loot { item_id } => EventTypeView::Loot { item_id },
            EventType::Position(position) => EventTypeView::Position(position),
            EventType::Power(power) => EventTypeView::Power(power),
            EventType::AuraApplication(aura) => EventTypeView::AuraApplication(aura),
            EventType::Death { murder } => EventTypeView::Death { murder },
            EventType::Summon { summoned } => EventTypeView::Summon { summoned },
            EventType::ThreatWipe => EventTypeView::ThreatWipe,
            EventType::Interrupt { cause_event_id, interrupted_spell_id } => EventTypeView::Interrupt {
                cause_event_id,
                interrupted_spell_id,
            },
            EventType::Dispel { cause_event_id, target_event_ids } => EventTypeView::Dispel {
                cause_event_id,
                target_event_ids: target_event_ids@,
            },
            EventType::SpellSteal { cause_event_id, target_event_id } => EventTypeView::SpellSteal {
                cause_event_id,
                target_event_id,
            },
        }
    }
}

/// A committed event.  Within its encounter the `id` counts the events
/// from `1` in the order in which they were committed.
#[derive(Clone, Debug, PartialEq, Eq)]
pub struct Event {
    pub id: u32,
    pub timestamp: u64,
    pub subject: Unit,
    pub event: EventType,
}

/// The model of an [`Event`].
pub struct EventView {
    pub id: u32,
    pub timestamp: u64,
    pub subject: Unit,
    pub event: EventTypeView,
}

impl View for Event {
    type V = EventView;

    open spec fn view(&self) -> EventView {
        EventView { id: self.id, timestamp: self.timestamp, subject: self.subject, event: self.event@ }
    }
}

impl EventView {
    /// This event under the id `id`.
    pub open spec fn with_id(self, id: u32) -> EventView {
        EventView { id, ..self }
    }
}

impl Event {
    /// An event that has no id yet.
    pub fn new(timestamp: u64, subject: Unit, event: EventType) -> (e: Event)
        ensures
            e.id == 0,
            e.timestamp == timestamp,
            e.subject == subject,
            e.event == event,
    {
        Event { id: 0, timestamp, subject, event }
    }
}

/// What becomes of a buffer whose first message gave no event.
#[derive(Clone, Copy, Debug, PartialEq, Eq)]
pub enum EventParseFailureAction {
    /// Drop the first message of the buffer.
    DiscardFirst,
    /// Drop the whole buffer.
    DiscardAll,
    /// Leave the buffer as it is and look again at the next message.
    Wait,
}

/// An instance that is running.
#[derive(Clone, Copy, Debug, PartialEq, Eq)]
pub struct UnitInstance {
    pub instance_meta_id: u32,
    pub entered: u64,
    pub map_id: u32,
    pub map_difficulty: u8,
    pub instance_id: u32,
}

/// When the instances of a map expire.
#[derive(Clone, Copy, Debug, PartialEq, Eq)]
pub struct InstanceReset {
    pub map_id: u32,
    pub difficulty: u8,
    pub reset_time: u64,
}

/// A character that took part in an encounter, with the snapshot of its
/// gear and talents that was current when it was last seen.
#[derive(Clone, Copy, Debug, PartialEq, Eq)]
pub struct Participant {
    pub instance_meta_id: u32,
    pub character_id: u32,
    pub history_id: Option<u32>,
}

} // verus!
