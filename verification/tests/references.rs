use live_data_processor::armory::{Armory, CharacterRecord};
use live_data_processor::cross_reference::{
    try_parse_dispel, try_parse_interrupt, try_parse_spell_steal, CROSS_REFERENCE_LOOKBACK,
};
use live_data_processor::domain_value::{
    AuraApplication, Creature, Event, EventParseFailureAction, EventType, Player, SpellCast, Unit,
};
use live_data_processor::dto;
use live_data_processor::table::Table;

const SERVER: u32 = 1;
const BOSS: u64 = 0xF130_0000_0B00_0001;

fn armory() -> Armory {
    let mut armory = Armory::new();
    armory.characters.push(CharacterRecord { server_id: SERVER, character_id: 1, last_history_id: Some(11) });
    armory.characters.push(CharacterRecord { server_id: SERVER, character_id: 2, last_history_id: Some(12) });
    armory
}

fn player(id: u32) -> Unit {
    Unit::Player(Player { character_id: id, history_id: Some(10 + id), is_owner_player_controlled: false })
}

fn boss() -> Unit {
    Unit::Creature(Creature { entry: 0xB, guid: BOSS })
}

fn cast_event(id: u32, timestamp: u64, subject: Unit, spell_id: u32) -> Event {
    Event {
        id,
        timestamp,
        subject,
        event: EventType::SpellCast(SpellCast {
            spell_id,
            target: None,
            hit_mask: 0,
            damages: vec![],
            heal: None,
            threat: None,
        }),
    }
}

fn aura_event(id: u32, timestamp: u64, subject: Unit, spell_id: u32) -> Event {
    Event {
        id,
        timestamp,
        subject,
        event: EventType::AuraApplication(AuraApplication { caster: boss(), stack_amount: 1, spell_id }),
    }
}

fn loot_event(id: u32, timestamp: u64, subject: Unit) -> Event {
    Event { id, timestamp, subject, event: EventType::Loot { item_id: 1 } }
}

fn interrupt(target: u64, interrupted_spell_id: u32) -> dto::Interrupt {
    dto::Interrupt { target: dto::Unit { unit_id: target }, interrupted_spell_id }
}

fn dispel(aura_caster: u64, target: u64, dispelled_spell_id: u32) -> dto::Dispel {
    dto::Dispel {
        aura_caster: dto::Unit { unit_id: aura_caster },
        target: dto::Unit { unit_id: target },
        dispelled_spell_id,
        target_spell_id: None,
    }
}

fn steal(aura_caster: u64, target: u64, spell_id: u32) -> dto::SpellSteal {
    dto::SpellSteal {
        aura_caster: dto::Unit { unit_id: aura_caster },
        target: dto::Unit { unit_id: target },
        spell_id,
    }
}

#[test]
fn lookback_is_ten_seconds() {
    assert_eq!(CROSS_REFERENCE_LOOKBACK, 10_000);
}

#[test]
fn interrupt_takes_the_most_recent_cast_of_the_spell() {
    let log = vec![
        cast_event(1, 1000, player(1), 133),
        cast_event(2, 1100, player(1), 133),
        cast_event(3, 1200, player(1), 116),
        cast_event(4, 1300, player(2), 133),
        loot_event(5, 1400, player(1)),
    ];
    assert_eq!(try_parse_interrupt(&interrupt(1, 133), &log, 1500, 1600, &player(1)), Ok((2, 133)));
    assert_eq!(try_parse_interrupt(&interrupt(1, 116), &log, 1500, 1600, &player(1)), Ok((3, 116)));
    assert_eq!(try_parse_interrupt(&interrupt(2, 133), &log, 1500, 1600, &player(2)), Ok((4, 133)));
}

#[test]
fn interrupt_reaches_back_ten_seconds_and_no_more() {
    let log = vec![cast_event(1, 1000, player(1), 133)];
    assert_eq!(try_parse_interrupt(&interrupt(1, 133), &log, 11_000, 11_000, &player(1)), Ok((1, 133)));
    assert_eq!(
        try_parse_interrupt(&interrupt(1, 133), &log, 11_001, 11_001, &player(1)),
        Err(EventParseFailureAction::Wait)
    );
    // a cast that carries a later time than the interrupt is within reach
    assert_eq!(try_parse_interrupt(&interrupt(1, 133), &log, 500, 500, &player(1)), Ok((1, 133)));
}

#[test]
fn interrupt_without_cast_waits_until_the_window_has_passed() {
    let log = vec![cast_event(1, 1000, player(1), 116), cast_event(2, 1000, player(2), 133)];
    assert_eq!(
        try_parse_interrupt(&interrupt(1, 133), &log, 2000, 12_000, &player(1)),
        Err(EventParseFailureAction::Wait)
    );
    assert_eq!(
        try_parse_interrupt(&interrupt(1, 133), &log, 2000, 12_001, &player(1)),
        Err(EventParseFailureAction::DiscardFirst)
    );
    assert_eq!(
        try_parse_interrupt(&interrupt(1, 133), &vec![], 2000, 1000, &player(1)),
        Err(EventParseFailureAction::Wait)
    );
}

#[test]
fn dispel_refers_to_last_cast_and_every_aura() {
    let log = vec![
        aura_event(1, 1000, boss(), 774),
        cast_event(2, 1100, player(1), 527),
        aura_event(3, 1200, boss(), 774),
        aura_event(4, 1300, boss(), 8936),
        aura_event(5, 1400, player(2), 774),
        cast_event(6, 1500, player(1), 528),
        cast_event(7, 1600, player(2), 527),
    ];
    let found = try_parse_dispel(&dispel(1, BOSS, 774), &log, 1700, 1800, &armory(), SERVER, &Table::new());
    assert_eq!(found, Ok((6, vec![1, 3])));
}

#[test]
fn dispel_needs_a_cast_and_an_aura() {
    let summons = Table::new();
    let no_aura = vec![cast_event(1, 1000, player(1), 527)];
    assert_eq!(
        try_parse_dispel(&dispel(1, BOSS, 774), &no_aura, 1700, 1800, &armory(), SERVER, &summons),
        Err(EventParseFailureAction::Wait)
    );
    assert_eq!(
        try_parse_dispel(&dispel(1, BOSS, 774), &no_aura, 1700, 11_701, &armory(), SERVER, &summons),
        Err(EventParseFailureAction::DiscardFirst)
    );
    let no_cast = vec![aura_event(1, 1000, boss(), 774)];
    assert_eq!(
        try_parse_dispel(&dispel(1, BOSS, 774), &no_cast, 1700, 1800, &armory(), SERVER, &summons),
        Err(EventParseFailureAction::Wait)
    );
    let too_old = vec![aura_event(1, 1000, boss(), 774), cast_event(2, 11_000, player(1), 527)];
    assert_eq!(
        try_parse_dispel(&dispel(1, BOSS, 774), &too_old, 11_001, 11_002, &armory(), SERVER, &summons),
        Err(EventParseFailureAction::Wait)
    );
}

#[test]
fn dispel_with_unknown_units_is_dropped() {
    let summons = Table::new();
    let log = vec![aura_event(1, 1000, boss(), 774), cast_event(2, 1100, player(1), 527)];
    assert_eq!(
        try_parse_dispel(&dispel(99, BOSS, 774), &log, 1700, 1800, &armory(), SERVER, &summons),
        Err(EventParseFailureAction::DiscardFirst)
    );
    assert_eq!(
        try_parse_dispel(&dispel(1, 99, 774), &log, 1700, 1800, &armory(), SERVER, &summons),
        Err(EventParseFailureAction::DiscardFirst)
    );
}

#[test]
fn spell_steal_needs_exactly_one_aura() {
    let summons = Table::new();
    let one = vec![aura_event(1, 1000, boss(), 774), cast_event(2, 1100, player(1), 30449)];
    assert_eq!(
        try_parse_spell_steal(&steal(1, BOSS, 774), &one, 1700, 1800, &armory(), SERVER, &summons),
        Ok((2, 1))
    );
    let two = vec![
        aura_event(1, 1000, boss(), 774),
        cast_event(2, 1100, player(1), 30449),
        aura_event(3, 1200, boss(), 774),
    ];
    assert_eq!(
        try_parse_spell_steal(&steal(1, BOSS, 774), &two, 1700, 1800, &armory(), SERVER, &summons),
        Err(EventParseFailureAction::Wait)
    );
    assert_eq!(
        try_parse_spell_steal(&steal(1, BOSS, 774), &two, 1700, 11_701, &armory(), SERVER, &summons),
        Err(EventParseFailureAction::DiscardFirst)
    );
    let none = vec![cast_event(1, 1100, player(1), 30449)];
    assert_eq!(
        try_parse_spell_steal(&steal(1, BOSS, 774), &none, 1700, 1800, &armory(), SERVER, &summons),
        Err(EventParseFailureAction::Wait)
    );
    assert_eq!(
        try_parse_spell_steal(&steal(99, BOSS, 774), &one, 1700, 1800, &armory(), SERVER, &summons),
        Err(EventParseFailureAction::DiscardFirst)
    );
}
