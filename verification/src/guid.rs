//! The layout of a unit GUID.
//!
//! The upper sixteen bits of a GUID name the kind of unit.  Players carry
//! the kind `0` and their character id in the lower thirty-two bits.
//! Creatures, pets and vehicles carry their template entry in the
//! twenty-four bits above the lowest twenty-four.
use vstd::prelude::*;

verus! {

/// The kind of a creature.
pub const KIND_CREATURE: u64 = 0xF130;

/// The kind of a pet.
pub const KIND_PET: u64 = 0xF140;

/// The kind of a vehicle.
pub const KIND_VEHICLE: u64 = 0xF150;

/// The kind of unit that `guid` names: its upper sixteen bits.
pub open spec fn spec_kind(guid: u64) -> u64 {
    guid / 0x1_0000_0000_0000
}

/// Whether `guid` names a player.
pub open spec fn spec_is_player(guid: u64) -> bool {
    spec_kind(guid) == 0
}

/// The character id of a player GUID: its lower thirty-two bits.
pub open spec fn spec_character_id(guid: u64) -> u32 {
    (guid % 0x1_0000_0000) as u32
}

/// The template entry of a creature, pet or vehicle GUID.
pub open spec fn spec_entry(guid: u64) -> Option<u32> {
    let kind = spec_kind(guid);
    if kind == KIND_CREATURE || kind == KIND_PET || kind == KIND_VEHICLE {
        Some(((guid / 0x100_0000) % 0x100_0000) as u32)
    } else {
        None
    }
}

/// The kind of unit that `guid` names.
pub fn kind(guid: u64) -> (k: u64)
    ensures
        k == spec_kind(guid),
{
    guid / 0x1_0000_0000_0000
}

/// Whether `guid` names a player.
pub fn is_player(guid: u64) -> (b: bool)
    ensures
        b == spec_is_player(guid),
{
    kind(guid) == 0
}

/// The character id of a player GUID.
pub fn character_id(guid: u64) -> (id: u32)
    ensures
        id == spec_character_id(guid),
{
    (guid % 0x1_0000_0000) as u32
}

/// The template entry of a creature, pet or vehicle GUID; `None` for every
/// other kind of unit.
pub fn entry(guid: u64) -> (e: Option<u32>)
    ensures
        e == spec_entry(guid),
{
    let k = kind(guid);
    if k == KIND_CREATURE || k == KIND_PET || k == KIND_VEHICLE {
        Some(((guid / 0x100_0000) % 0x100_0000) as u32)
    } else {
        None
    }
}

/// What the ingest side may know of a unit: the character id of a player,
/// `0` for everything else.
pub open spec fn spec_player_id(guid: u64) -> u32 {
    if spec_is_player(guid) {
        spec_character_id(guid)
    } else {
        0
    }
}

/// The character ids behind `guids`, position by position, with `0` for
/// each unit that is no player.
pub fn player_ids(guids: &Vec<u64>) -> (ids: Vec<u32>)
    ensures
        ids@ == guids@.map_values(|guid: u64| spec_player_id(guid)),
{
    let mut ids: Vec<u32> = Vec::new();
    let mut i: usize = 0;
    while i < guids.len()
        invariant
            i <= guids.len(),
            ids@ == guids@.take(i as int).map_values(|guid: u64| spec_player_id(guid)),
        decreases guids.len() - i,
    {
        let guid = guids[i];
        let id: u32 = if is_player(guid) { character_id(guid) } else { 0 };
        ids.push(id);
        i += 1;
        assert(ids@ =~= guids@.take(i as int).map_values(|guid: u64| spec_player_id(guid)));
    }
    assert(guids@.take(i as int) =~= guids@);
    ids
}

} // verus!
