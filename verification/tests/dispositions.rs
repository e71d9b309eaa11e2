use live_data_processor::armory::{Armory, CharacterRecord};
use live_data_processor::domain_value::{
    AuraApplication, Creature, Event, EventParseFailureAction, EventType, Player, Position, Power, PowerType, Unit,
    UnitInstance,
};
use live_data_processor::dto;
use live_data_processor::dto::{Message, MessageType};
use live_data_processor::material::Server;
use live_data_processor::store::{Store, StoreOp};

const SERVER: u32 = 1;
const BOSS: u64 = 0xF130_0000_0B00_0001;
const PET: u64 = 0xF140_0000_0D00_0001;

fn armory() -> Armory {
    let mut armory = Armory::new();
    for id in [1u32, 2, 3] {
        armory.characters.push(CharacterRecord { server_id: SERVER, character_id: id, last_history_id: Some(10 + id) });
    }
    armory
}

fn player(id: u32) -> Unit {
    Unit::Player(Player { character_id: id, history_id: Some(10 + id), is_owner_player_controlled: false })
}

fn boss() -> Unit {
    Unit::Creature(Creature { entry: 0xB, guid: BOSS })
}

fn unit(unit_id: u64) -> dto::Unit {
    dto::Unit { unit_id }
}

fn message(timestamp: u64, message_type: MessageType) -> Message {
    Message { api_version: 0, message_length: 0, timestamp, message_type }
}

fn loot(timestamp: u64, unit_id: u64, item_id: u32) -> Message {
    message(timestamp, MessageType::Loot(dto::Loot { unit: unit(unit_id), item_id }))
}

fn cast(timestamp: u64, caster: u64, spell_id: u32) -> Message {
    message(timestamp, MessageType::SpellCast(dto::SpellCast { caster: unit(caster), spell_id, target: None }))
}

fn interrupt(timestamp: u64, target: u64, interrupted_spell_id: u32) -> Message {
    message(timestamp, MessageType::Interrupt(dto::Interrupt { target: unit(target), interrupted_spell_id }))
}

fn aura(timestamp: u64, target: u64, caster: u64, spell_id: u32) -> Message {
    message(
        timestamp,
        MessageType::AuraApplication(dto::AuraApplication {
            target: unit(target),
            caster: unit(caster),
            spell_id,
            stack_amount: 2,
        }),
    )
}

/// A server with two running instances: 42 is encounter 1, 43 is encounter 2.
fn server(in_first: &[u64], in_second: &[u64]) -> Server {
    let mut server = Server::new(SERVER);
    server.active_instances.insert(
        42,
        UnitInstance { instance_meta_id: 1, entered: 0, map_id: 533, map_difficulty: 9, instance_id: 42 },
    );
    server.active_instances.insert(
        43,
        UnitInstance { instance_meta_id: 2, entered: 0, map_id: 30, map_difficulty: 0, instance_id: 43 },
    );
    for guid in in_first {
        server.unit_instance_id.insert(*guid, 42);
    }
    for guid in in_second {
        server.unit_instance_id.insert(*guid, 43);
    }
    server
}

fn commit(server: &Server, buffer: Vec<Message>, next: Message) -> Result<Event, EventParseFailureAction> {
    server.commit_event(&armory(), &buffer, &next)
}

fn log_of(server: &Server, encounter: u64) -> Vec<Event> {
    server.committed_events.get(encounter).cloned().unwrap_or_default()
}

fn event(timestamp: u64, subject: Unit, event: EventType) -> Result<Event, EventParseFailureAction> {
    Ok(Event { id: 0, timestamp, subject, event })
}

#[test]
fn single_messages_become_their_events() {
    let server = server(&[1], &[]);
    let next = loot(9000, 2, 1);
    assert_eq!(
        commit(
            &server,
            vec![message(10, MessageType::CombatState(dto::CombatState { unit: unit(1), in_combat: true }))],
            next
        ),
        event(10, player(1), EventType::CombatState { in_combat: true })
    );
    assert_eq!(commit(&server, vec![loot(11, 1, 50)], next), event(11, player(1), EventType::Loot { item_id: 50 }));
    assert_eq!(
        commit(
            &server,
            vec![message(
                12,
                MessageType::Position(dto::Position {
                    unit: unit(1),
                    map_id: 533,
                    instance_id: 42,
                    map_difficulty: 0,
                    x: -1,
                    y: 2,
                    z: 3,
                    orientation: 4
                })
            )],
            next
        ),
        event(12, player(1), EventType::Position(Position { x: -1, y: 2, z: 3, orientation: 4 }))
    );
    assert_eq!(
        commit(
            &server,
            vec![message(
                13,
                MessageType::Power(dto::Power { unit: unit(1), power_type: 3, current_power: 40, max_power: 100 })
            )],
            next
        ),
        event(
            13,
            player(1),
            EventType::Power(Power { power_type: PowerType::Energy, max_power: 100, current_power: 40 })
        )
    );
    assert_eq!(
        commit(&server, vec![aura(14, 1, BOSS, 774)], next),
        event(
            14,
            player(1),
            EventType::AuraApplication(AuraApplication { caster: boss(), stack_amount: 2, spell_id: 774 })
        )
    );
    assert_eq!(
        commit(
            &server,
            vec![message(15, MessageType::Death(dto::Death { victim: unit(1), cause: Some(unit(BOSS)) }))],
            next
        ),
        event(15, player(1), EventType::Death { murder: Some(boss()) })
    );
    assert_eq!(
        commit(
            &server,
            vec![message(16, MessageType::Death(dto::Death { victim: unit(1), cause: Some(unit(99)) }))],
            next
        ),
        event(16, player(1), EventType::Death { murder: None })
    );
    assert_eq!(
        commit(
            &server,
            vec![message(17, MessageType::Summon(dto::Summon { owner: unit(1), unit: unit(BOSS) }))],
            next
        ),
        event(17, player(1), EventType::Summon { summoned: boss() })
    );
    assert_eq!(
        commit(&server, vec![message(18, MessageType::Event(dto::Event { unit: unit(BOSS), event_type: 0 }))], next),
        event(18, boss(), EventType::ThreatWipe)
    );
}

#[test]
fn only_the_first_message_of_a_buffer_is_decided() {
    let server = server(&[1], &[]);
    assert_eq!(
        commit(&server, vec![loot(11, 1, 50), loot(12, 1, 51)], loot(9000, 2, 1)),
        event(11, player(1), EventType::Loot { item_id: 50 })
    );
}

#[test]
fn message_that_gives_no_event_is_dropped() {
    let server = server(&[1], &[]);
    let next = loot(9000, 2, 1);
    // a unit that does not resolve
    assert_eq!(commit(&server, vec![loot(11, 99, 50)], next), Err(EventParseFailureAction::DiscardFirst));
    assert_eq!(commit(&server, vec![aura(14, 1, 99, 774)], next), Err(EventParseFailureAction::DiscardFirst));
    assert_eq!(commit(&server, vec![aura(14, 99, 1, 774)], next), Err(EventParseFailureAction::DiscardFirst));
    assert_eq!(
        commit(
            &server,
            vec![message(17, MessageType::Summon(dto::Summon { owner: unit(1), unit: unit(99) }))],
            next
        ),
        Err(EventParseFailureAction::DiscardFirst)
    );
    // a power type that is not known
    assert_eq!(
        commit(
            &server,
            vec![message(
                13,
                MessageType::Power(dto::Power { unit: unit(1), power_type: 7, current_power: 40, max_power: 100 })
            )],
            next
        ),
        Err(EventParseFailureAction::DiscardFirst)
    );
    // a threat wipe of a player, and an event that is no threat wipe
    assert_eq!(
        commit(&server, vec![message(18, MessageType::Event(dto::Event { unit: unit(1), event_type: 0 }))], next),
        Err(EventParseFailureAction::DiscardFirst)
    );
    assert_eq!(
        commit(&server, vec![message(18, MessageType::Event(dto::Event { unit: unit(BOSS), event_type: 1 }))], next),
        Err(EventParseFailureAction::DiscardFirst)
    );
    // a message that belongs into no buffer
    assert_eq!(
        commit(
            &server,
            vec![message(
                19,
                MessageType::InstancePvPStartBattleground(dto::InstanceStart { map_id: 30, instance_id: 1 })
            )],
            next
        ),
        Err(EventParseFailureAction::DiscardFirst)
    );
}

#[test]
fn spell_of_unknown_caster_takes_the_buffer_with_it() {
    let server = server(&[1], &[]);
    assert_eq!(commit(&server, vec![cast(10, 99, 133)], loot(9000, 2, 1)), Err(EventParseFailureAction::DiscardAll));
    assert_eq!(commit(&server, vec![], loot(9000, 2, 1)), Err(EventParseFailureAction::DiscardAll));
}

#[test]
fn spell_waits_for_its_end() {
    let server = server(&[1], &[]);
    assert_eq!(commit(&server, vec![cast(10, 1, 133)], loot(20, 1, 1)), Err(EventParseFailureAction::Wait));
    assert!(commit(&server, vec![cast(10, 1, 133)], loot(411, 1, 1)).is_ok());
}

#[test]
fn reference_waits_while_its_subject_is_in_no_encounter() {
    let mut lonely = Server::new(SERVER);
    assert_eq!(commit(&lonely, vec![interrupt(10, 1, 133)], loot(90_000, 2, 1)), Err(EventParseFailureAction::Wait));
    // seen in an instance that does not run
    lonely.unit_instance_id.insert(1, 42);
    assert_eq!(commit(&lonely, vec![interrupt(10, 1, 133)], loot(90_000, 2, 1)), Err(EventParseFailureAction::Wait));
    let dispel = message(
        10,
        MessageType::Dispel(dto::Dispel {
            aura_caster: unit(1),
            target: unit(BOSS),
            dispelled_spell_id: 774,
            target_spell_id: None,
        }),
    );
    assert_eq!(commit(&lonely, vec![dispel], loot(90_000, 2, 1)), Err(EventParseFailureAction::Wait));
    let steal = message(
        10,
        MessageType::SpellSteal(dto::SpellSteal { aura_caster: unit(1), target: unit(BOSS), spell_id: 774 }),
    );
    assert_eq!(commit(&lonely, vec![steal], loot(90_000, 2, 1)), Err(EventParseFailureAction::Wait));
}

#[test]
fn reference_in_an_encounter_without_events_waits_and_is_dropped() {
    let server = server(&[1], &[]);
    assert_eq!(commit(&server, vec![interrupt(10, 1, 133)], loot(10_010, 2, 1)), Err(EventParseFailureAction::Wait));
    assert_eq!(
        commit(&server, vec![interrupt(10, 1, 133)], loot(10_011, 2, 1)),
        Err(EventParseFailureAction::DiscardFirst)
    );
    assert_eq!(
        commit(&server, vec![interrupt(10, 99, 133)], loot(10_011, 2, 1)),
        Err(EventParseFailureAction::Wait)
    );
}

#[test]
fn dispel_and_spell_steal_are_resolved_against_the_log() {
    let mut server = server(&[1, 2, BOSS], &[]);
    let mut store = Store::new();
    let armory = armory();
    let dispel = message(
        1300,
        MessageType::Dispel(dto::Dispel {
            aura_caster: unit(1),
            target: unit(BOSS),
            dispelled_spell_id: 774,
            target_spell_id: Some(527),
        }),
    );
    let steal = message(
        1400,
        MessageType::SpellSteal(dto::SpellSteal { aura_caster: unit(2), target: unit(BOSS), spell_id: 1459 }),
    );
    let messages = vec![
        aura(1000, BOSS, BOSS, 774),
        aura(1010, BOSS, BOSS, 1459),
        aura(1020, BOSS, BOSS, 774),
        cast(1100, 1, 527),
        cast(1110, 2, 30449),
        dispel,
        steal,
        loot(2000, 3, 1),
        loot(2001, 3, 1),
    ];
    server.parse_events(&mut store, &armory, messages).unwrap();
    let log = log_of(&server, 1);
    let kinds: Vec<(u32, &EventType)> = log.iter().map(|e| (e.id, &e.event)).collect();
    assert_eq!(kinds.len(), 7);
    for (at, kind) in kinds.iter().enumerate() {
        assert_eq!(kind.0 as usize, at + 1);
    }
    let casts: Vec<u32> =
        log.iter().filter(|e| matches!(e.event, EventType::SpellCast(_))).map(|e| e.id).collect();
    let dispels: Vec<&Event> = log.iter().filter(|e| matches!(e.event, EventType::Dispel { .. })).collect();
    let steals: Vec<&Event> = log.iter().filter(|e| matches!(e.event, EventType::SpellSteal { .. })).collect();
    assert_eq!(dispels.len(), 1);
    assert_eq!(steals.len(), 1);
    assert_eq!(dispels[0].subject, player(1));
    assert_eq!(dispels[0].event, EventType::Dispel { cause_event_id: casts[0], target_event_ids: vec![1, 3] });
    assert_eq!(steals[0].subject, player(2));
    assert_eq!(steals[0].event, EventType::SpellSteal { cause_event_id: casts[1], target_event_id: 2 });
}

#[test]
fn events_are_numbered_from_one_in_each_encounter() {
    let mut server = server(&[1, 2], &[3]);
    let mut store = Store::new();
    let messages = vec![
        loot(10, 1, 100),
        loot(11, 3, 300),
        loot(12, 2, 200),
        loot(13, 1, 101),
        loot(14, 3, 301),
        loot(15, 1, 102),
        loot(16, 2, 201),
        loot(17, 3, 302),
        loot(18, 1, 103),
    ];
    server.parse_events(&mut store, &armory(), messages).unwrap();
    let first: Vec<(u32, EventType)> = log_of(&server, 1).into_iter().map(|e| (e.id, e.event)).collect();
    let second: Vec<(u32, EventType)> = log_of(&server, 2).into_iter().map(|e| (e.id, e.event)).collect();
    assert_eq!(
        first,
        vec![
            (1, EventType::Loot { item_id: 100 }),
            (2, EventType::Loot { item_id: 200 }),
            (3, EventType::Loot { item_id: 101 }),
            (4, EventType::Loot { item_id: 102 }),
            (5, EventType::Loot { item_id: 201 }),
        ]
    );
    assert_eq!(
        second,
        vec![
            (1, EventType::Loot { item_id: 300 }),
            (2, EventType::Loot { item_id: 301 }),
            (3, EventType::Loot { item_id: 302 }),
        ]
    );
    let inserted: Vec<StoreOp> =
        store.journal.iter().copied().filter(|op| matches!(op, StoreOp::InsertEvent { .. })).collect();
    assert_eq!(
        inserted,
        vec![
            StoreOp::InsertEvent { instance_meta_id: 1, event_id: 1 },
            StoreOp::InsertEvent { instance_meta_id: 2, event_id: 1 },
            StoreOp::InsertEvent { instance_meta_id: 1, event_id: 2 },
            StoreOp::InsertEvent { instance_meta_id: 1, event_id: 3 },
            StoreOp::InsertEvent { instance_meta_id: 2, event_id: 2 },
            StoreOp::InsertEvent { instance_meta_id: 1, event_id: 4 },
            StoreOp::InsertEvent { instance_meta_id: 1, event_id: 5 },
            StoreOp::InsertEvent { instance_meta_id: 2, event_id: 3 },
        ]
    );
}

#[test]
fn buffers_are_decided_oldest_first() {
    let mut server = server(&[1, 2], &[]);
    let mut store = Store::new();
    let armory = armory();
    server.push_non_committed_event(loot(10, 2, 200));
    server.push_non_committed_event(loot(11, 1, 100));
    server.push_non_committed_event(loot(12, 2, 201));
    server.test_for_committable_events(&mut store, &armory, &loot(13, 3, 1));
    let items: Vec<EventType> = log_of(&server, 1).into_iter().map(|e| e.event).collect();
    assert_eq!(items, vec![EventType::Loot { item_id: 200 }, EventType::Loot { item_id: 100 }]);
    assert_eq!(server.non_committed_events.len(), 1);
    assert_eq!(server.non_committed_events.get(2), Some(&vec![loot(12, 2, 201)]));
}

#[test]
fn nothing_is_committed_for_a_subject_outside_every_encounter() {
    let mut server = server(&[], &[]);
    server.unit_instance_id.insert(2, 77);
    let mut store = Store::new();
    let messages = vec![
        loot(10, 1, 100),
        loot(11, 2, 200),
        cast(12, 1, 133),
        loot(13, 2, 201),
        loot(500, 1, 101),
        loot(501, 2, 202),
        loot(20_000, 3, 1),
    ];
    server.parse_events(&mut store, &armory(), messages).unwrap();
    assert_eq!(server.committed_events.len(), 0);
    assert!(store.journal.iter().all(|op| !matches!(op, StoreOp::InsertEvent { .. })));
}

#[test]
fn dispositions_shape_the_buffer() {
    let mut server = server(&[1, 2, 3], &[]);
    let mut store = Store::new();
    let armory = armory();
    // dropped first message, second one stays
    server.push_non_committed_event(message(
        10,
        MessageType::Power(dto::Power { unit: unit(1), power_type: 9, current_power: 0, max_power: 0 }),
    ));
    server.push_non_committed_event(loot(11, 1, 100));
    // a spell that waits
    server.push_non_committed_event(cast(12, 2, 133));
    // a buffer that goes as a whole
    server.non_committed_events.insert(99, vec![cast(13, 99, 133), loot(14, 99, 1)]);
    // a single message that goes and takes its buffer along
    server.push_non_committed_event(loot(15, 3, 300));
    server.test_for_committable_events(&mut store, &armory, &loot(16, 2, 200));
    assert_eq!(server.non_committed_events.get(1), Some(&vec![loot(11, 1, 100)]));
    assert_eq!(server.non_committed_events.get(2), Some(&vec![cast(12, 2, 133)]));
    assert_eq!(server.non_committed_events.get(99), None);
    assert_eq!(server.non_committed_events.get(3), None);
    assert_eq!(server.non_committed_events.len(), 2);
    let items: Vec<EventType> = log_of(&server, 1).into_iter().map(|e| e.event).collect();
    assert_eq!(items, vec![EventType::Loot { item_id: 300 }]);
}

#[test]
fn events_are_lost_while_the_store_is_not_online() {
    let mut server = server(&[1], &[]);
    let mut store = Store::new();
    store.online = false;
    server.parse_events(&mut store, &armory(), vec![loot(10, 1, 100), loot(11, 1, 101)]).unwrap();
    assert_eq!(server.committed_events.len(), 0);
    assert!(store.journal.is_empty());
    assert_eq!(server.non_committed_events.get(1), Some(&vec![loot(11, 1, 101)]));
    store.online = true;
    server.parse_events(&mut store, &armory(), vec![loot(12, 1, 102)]).unwrap();
    let items: Vec<(u32, EventType)> = log_of(&server, 1).into_iter().map(|e| (e.id, e.event)).collect();
    assert_eq!(items, vec![(1, EventType::Loot { item_id: 101 })]);
}

#[test]
fn summon_counts_for_its_owner() {
    let mut server = server(&[1, PET], &[]);
    let mut store = Store::new();
    let messages = vec![
        message(5, MessageType::Summon(dto::Summon { owner: unit(1), unit: unit(PET) })),
        loot(10, PET, 100),
        loot(11, 2, 1),
        loot(12, 2, 2),
    ];
    server.parse_events(&mut store, &armory(), messages).unwrap();
    assert_eq!(server.summons.get(1), Some(&PET));
    let log = log_of(&server, 1);
    let owner = Unit::Player(Player { character_id: 1, history_id: Some(11), is_owner_player_controlled: true });
    assert_eq!(
        log,
        vec![
            Event {
                id: 1,
                timestamp: 5,
                subject: player(1),
                event: EventType::Summon {
                    summoned: Unit::Player(Player {
                        character_id: 1,
                        history_id: Some(11),
                        is_owner_player_controlled: true
                    })
                }
            },
            Event { id: 2, timestamp: 10, subject: owner, event: EventType::Loot { item_id: 100 } },
        ]
    );
}

#[test]
fn message_without_subject_is_not_buffered() {
    let mut server = Server::new(SERVER);
    server.push_non_committed_event(message(
        19,
        MessageType::InstancePvPStartBattleground(dto::InstanceStart { map_id: 30, instance_id: 1 }),
    ));
    assert_eq!(server.non_committed_events.len(), 0);
    server.push_non_committed_event(aura(20, 5, 6, 1));
    server.push_non_committed_event(interrupt(21, 5, 1));
    assert_eq!(server.non_committed_events.get(5), Some(&vec![aura(20, 5, 6, 1), interrupt(21, 5, 1)]));
}
