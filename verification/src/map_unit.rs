//! The unit resolver: from a GUID on the wire to a unit of the event log.
//!
//! A player GUID resolves to its character.  Any other unit that some
//! player summoned resolves to that player, so that what a pet or a totem
//! does counts for its owner.  What is left is a creature.
use vstd::prelude::*;
use crate::armory::Armory;
use crate::domain_value::{Creature, Player, Unit};
use crate::dto;
use crate::dto::LiveDataProcessorFailure;
use crate::guid::{character_id, entry, is_player, spec_character_id, spec_entry, spec_is_player};
use crate::table::{Entry, Table};

verus! {

/// The first player, from position `from` of `summons` on, whose summon is
/// `unit_id`.
pub open spec fn find_owner(summons: Seq<Entry<u64>>, unit_id: u64, from: int) -> Option<u64>
    decreases summons.len() - from,
{
    if from < 0 || from >= summons.len() {
        None
    } else if summons[from].value == unit_id && spec_is_player(summons[from].key) {
        Some(summons[from].key)
    } else {
        find_owner(summons, unit_id, from + 1)
    }
}

/// The character behind the player GUID `guid`.
pub open spec fn spec_resolve_player(armory: Armory, server_id: u32, guid: u64, summoned: bool) -> Result<
    Unit,
    LiveDataProcessorFailure,
> {
    match armory.spec_lookup_character(server_id, spec_character_id(guid)) {
        Some(character) => Ok(
            Unit::Player(
                Player {
                    character_id: spec_character_id(guid),
                    history_id: character.last_history_id,
                    is_owner_player_controlled: summoned,
                },
            ),
        ),
        None => Err(LiveDataProcessorFailure::NotFound),
    }
}

/// The unit behind a raw descriptor.
pub open spec fn spec_to_unit(unit: dto::Unit, armory: Armory, server_id: u32, summons: Seq<Entry<u64>>) -> Result<
    Unit,
    LiveDataProcessorFailure,
> {
    if spec_is_player(unit.unit_id) {
        spec_resolve_player(armory, server_id, unit.unit_id, false)
    } else {
        match find_owner(summons, unit.unit_id, 0) {
            Some(owner) => spec_resolve_player(armory, server_id, owner, true),
            None => match spec_entry(unit.unit_id) {
                Some(entry) => Ok(Unit::Creature(Creature { entry, guid: unit.unit_id })),
                None => Err(LiveDataProcessorFailure::InvalidInput),
            },
        }
    }
}

/// The unit behind an optional descriptor, where there is one and it
/// resolves.
pub open spec fn spec_to_unit_opt(unit: Option<dto::Unit>, armory: Armory, server_id: u32, summons: Seq<Entry<u64>>) -> Option<
    Unit,
> {
    match unit {
        Some(u) => match spec_to_unit(u, armory, server_id, summons) {
            Ok(resolved) => Some(resolved),
            Err(_) => None,
        },
        None => None,
    }
}

fn resolve_player(armory: &Armory, server_id: u32, guid: u64, summoned: bool) -> (r: Result<
    Unit,
    LiveDataProcessorFailure,
>)
    ensures
        r == spec_resolve_player(*armory, server_id, guid, summoned),
{
    let id = character_id(guid);
    match armory.lookup_character(server_id, id) {
        Some(character) => Ok(
            Unit::Player(
                Player {
                    character_id: id,
                    history_id: character.last_history_id,
                    is_owner_player_controlled: summoned,
                },
            ),
        ),
        None => Err(LiveDataProcessorFailure::NotFound),
    }
}

fn owner_of(summons: &Table<u64>, unit_id: u64) -> (r: Option<u64>)
    ensures
        r == find_owner(summons@, unit_id, 0),
{
    let mut i: usize = 0;
    while i < summons.entries.len()
        invariant
            i <= summons.entries.len(),
            find_owner(summons@, unit_id, 0) == find_owner(summons@, unit_id, i as int),
        decreases summons.entries.len() - i,
    {
        if summons.entries[i].value == unit_id && is_player(summons.entries[i].key) {
            return Some(summons.entries[i].key);
        }
        i += 1;
    }
    None
}

impl dto::Unit {
    /// Resolves the descriptor.  Fails with `NotFound` where the armory
    /// lacks the character, and with `InvalidInput` where the unit is
    /// neither a player nor a summon of one and its GUID has no entry.
    pub fn to_unit(&self, armory: &Armory, server_id: u32, summons: &Table<u64>) -> (r: Result<
        Unit,
        LiveDataProcessorFailure,
    >)
        ensures
            r == spec_to_unit(*self, *armory, server_id, summons@),
    {
        if is_player(self.unit_id) {
            resolve_player(armory, server_id, self.unit_id, false)
        } else {
            match owner_of(summons, self.unit_id) {
                Some(owner) => resolve_player(armory, server_id, owner, true),
                None => match entry(self.unit_id) {
                    Some(e) => Ok(Unit::Creature(Creature { entry: e, guid: self.unit_id })),
                    None => Err(LiveDataProcessorFailure::InvalidInput),
                },
            }
        }
    }
}

/// Resolves an optional descriptor; an absent or unresolvable unit gives
/// `None`.
pub fn to_unit_opt(unit: Option<dto::Unit>, armory: &Armory, server_id: u32, summons: &Table<u64>) -> (r: Option<
    Unit,
>)
    ensures
        r == spec_to_unit_opt(unit, *armory, server_id, summons@),
{
    match unit {
        Some(u) => match u.to_unit(armory, server_id, summons) {
            Ok(resolved) => Some(resolved),
            Err(_) => None,
        },
        None => None,
    }
}

} // verus!
