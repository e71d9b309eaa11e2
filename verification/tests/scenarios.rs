use live_data_processor::armory::{ArenaTeamRecord, Armory, CharacterRecord};
use live_data_processor::domain_value::{
    DamageComponent, Event, EventType, Participant, Player, SpellCast, Unit, UnitInstance, HIT_MASK_CRIT, HIT_MASK_HIT,
};
use live_data_processor::dto;
use live_data_processor::dto::{Message, MessageType};
use live_data_processor::material::Server;
use live_data_processor::store::{InstanceMeta, InstanceRaid, InstanceResetRow, Store, StoreOp};

const SERVER: u32 = 1;
const CREATURE_9: u64 = 0xF130_0000_0900_0009;

fn armory_with(characters: &[u32]) -> Armory {
    let mut armory = Armory::new();
    for id in characters {
        armory.characters.push(CharacterRecord { server_id: SERVER, character_id: *id, last_history_id: Some(100 + *id) });
    }
    armory
}

fn player(id: u32) -> Unit {
    Unit::Player(Player { character_id: id, history_id: Some(100 + id), is_owner_player_controlled: false })
}

fn message(timestamp: u64, message_type: MessageType) -> Message {
    Message { api_version: 0, message_length: 0, timestamp, message_type }
}

fn unit(guid: u64) -> dto::Unit {
    dto::Unit { unit_id: guid }
}

fn loot(timestamp: u64, guid: u64, item_id: u32) -> Message {
    message(timestamp, MessageType::Loot(dto::Loot { unit: unit(guid), item_id }))
}

fn combat_state(timestamp: u64, guid: u64, in_combat: bool) -> Message {
    message(timestamp, MessageType::CombatState(dto::CombatState { unit: unit(guid), in_combat }))
}

fn spell_cast(timestamp: u64, caster: u64, spell_id: u32) -> Message {
    message(timestamp, MessageType::SpellCast(dto::SpellCast { caster: unit(caster), spell_id, target: None }))
}

fn spell_damage(timestamp: u64, attacker: u64, victim: u64, spell_id: u32, amount: u32, hit_mask: u32) -> Message {
    message(
        timestamp,
        MessageType::SpellDamage(dto::DamageDone {
            attacker: unit(attacker),
            victim: unit(victim),
            spell_id: Some(spell_id),
            amount,
            hit_mask,
            blocked: 0,
            resisted: 0,
            absorbed: 0,
        }),
    )
}

fn position(timestamp: u64, guid: u64, map_id: u32, instance_id: u32, map_difficulty: u8) -> Message {
    message(
        timestamp,
        MessageType::Position(dto::Position {
            unit: unit(guid),
            map_id,
            instance_id,
            map_difficulty,
            x: 1,
            y: 2,
            z: 3,
            orientation: 4,
        }),
    )
}

/// A server on which the given players stand in instance 42, encounter 1.
fn server_in_encounter(players: &[u64]) -> Server {
    let mut server = Server::new(SERVER);
    server.active_instances.insert(
        42,
        UnitInstance { instance_meta_id: 1, entered: 0, map_id: 533, map_difficulty: 9, instance_id: 42 },
    );
    for guid in players {
        server.unit_instance_id.insert(*guid, 42);
    }
    server
}

fn log_of(server: &Server, encounter: u64) -> Vec<Event> {
    match server.committed_events.get(encounter) {
        Some(log) => log.clone(),
        None => Vec::new(),
    }
}

#[test]
fn trivial_loot_is_committed_as_first_event() {
    let armory = armory_with(&[7, 8]);
    let mut store = Store::new();
    let mut server = server_in_encounter(&[7]);
    let result = server.parse_events(&mut store, &armory, vec![loot(1000, 7, 50), combat_state(1001, 8, true)]);
    assert!(result.is_ok());
    let log = log_of(&server, 1);
    assert_eq!(
        log,
        vec![Event { id: 1, timestamp: 1000, subject: player(7), event: EventType::Loot { item_id: 50 } }]
    );
    assert!(store.journal.contains(&StoreOp::InsertEvent { instance_meta_id: 1, event_id: 1 }));
}

#[test]
fn spell_is_assembled_from_cast_and_hits() {
    let armory = armory_with(&[1, 2]);
    let mut store = Store::new();
    let mut server = server_in_encounter(&[1]);
    let messages = vec![
        spell_cast(1000, 1, 133),
        spell_damage(1050, 1, CREATURE_9, 133, 500, HIT_MASK_HIT),
        spell_damage(1200, 1, CREATURE_9, 133, 530, HIT_MASK_CRIT),
        combat_state(1500, 1, true),
    ];
    server.parse_events(&mut store, &armory, messages).unwrap();
    let creature = Unit::Creature(live_data_processor::domain_value::Creature { entry: 9, guid: CREATURE_9 });
    let expected_spell = SpellCast {
        spell_id: 133,
        target: None,
        hit_mask: HIT_MASK_HIT | HIT_MASK_CRIT,
        damages: vec![
            DamageComponent {
                victim: Some(creature),
                amount: 500,
                hit_mask: HIT_MASK_HIT,
                blocked: 0,
                resisted: 0,
                absorbed: 0,
            },
            DamageComponent {
                victim: Some(creature),
                amount: 530,
                hit_mask: HIT_MASK_CRIT,
                blocked: 0,
                resisted: 0,
                absorbed: 0,
            },
        ],
        heal: None,
        threat: None,
    };
    assert_eq!(
        log_of(&server, 1),
        vec![Event { id: 1, timestamp: 1000, subject: player(1), event: EventType::SpellCast(expected_spell.clone()) }]
    );
    // the buffer of the caster was drained, and holds the message that closed the spell
    assert_eq!(server.non_committed_events.get(1), Some(&vec![combat_state(1500, 1, true)]));

    server.parse_events(&mut store, &armory, vec![loot(1600, 2, 5)]).unwrap();
    assert_eq!(
        log_of(&server, 1),
        vec![
            Event { id: 1, timestamp: 1000, subject: player(1), event: EventType::SpellCast(expected_spell) },
            Event { id: 2, timestamp: 1500, subject: player(1), event: EventType::CombatState { in_combat: true } },
        ]
    );
    assert_eq!(server.non_committed_events.get(1), None);
}

#[test]
fn interrupt_refers_to_the_cast_it_stopped() {
    let armory = armory_with(&[1, 2]);
    let mut store = Store::new();
    let mut server = server_in_encounter(&[1]);
    let messages = vec![
        spell_cast(1000, 1, 133),
        spell_damage(1050, 1, CREATURE_9, 133, 500, HIT_MASK_HIT),
        spell_damage(1200, 1, CREATURE_9, 133, 530, HIT_MASK_CRIT),
        combat_state(1500, 1, true),
        message(1300, MessageType::Interrupt(dto::Interrupt { target: unit(1), interrupted_spell_id: 133 })),
        loot(1600, 2, 5),
    ];
    server.parse_events(&mut store, &armory, messages).unwrap();
    let log = log_of(&server, 1);
    assert_eq!(log.len(), 3);
    assert!(matches!(log[0].event, EventType::SpellCast(_)));
    assert_eq!(
        log[2],
        Event {
            id: 3,
            timestamp: 1300,
            subject: player(1),
            event: EventType::Interrupt { cause_event_id: log[0].id, interrupted_spell_id: 133 },
        }
    );
}

#[test]
fn first_position_on_a_raid_map_opens_the_encounter() {
    let armory = armory_with(&[1]);
    let mut store = Store::new();
    let mut server = Server::new(SERVER);
    server.parse_events(&mut store, &armory, vec![position(10_000, 1, 533, 42, 0)]).unwrap();
    assert_eq!(
        store.instance_meta,
        vec![InstanceMeta {
            id: 1,
            server_id: SERVER,
            start_ts: 10_000,
            end_ts: None,
            instance_id: 42,
            map_id: 533,
            expired: false,
        }]
    );
    assert_eq!(store.instance_raid, vec![InstanceRaid { instance_meta_id: 1, map_difficulty: 9 }]);
    assert_eq!(
        server.active_instances.get(42),
        Some(&UnitInstance { instance_meta_id: 1, entered: 10_000, map_id: 533, map_difficulty: 9, instance_id: 42 })
    );
    assert_eq!(server.unit_instance_id.get(1), Some(&42));
    assert_eq!(
        server.instance_participants,
        vec![Participant { instance_meta_id: 1, character_id: 1, history_id: Some(101) }]
    );
    assert!(store.journal.contains(&StoreOp::UpsertParticipant {
        instance_meta_id: 1,
        character_id: 1,
        history_id: Some(101)
    }));
}

#[test]
fn reset_sweep_closes_instances_whose_reset_has_passed() {
    let mut store = Store::new();
    store.instance_resets.push(InstanceResetRow { server_id: SERVER, map_id: 533, difficulty: 9, reset_time: 20_000 });
    assert_eq!(store.create_instance_meta(SERVER, 10_000, 42, 533), Some(1));
    let mut server = Server::new(SERVER).init(&store);
    assert_eq!(server.active_instances.len(), 1);

    // the reset time itself has not passed yet
    assert_eq!(server.reset_instances(&mut store, 20_000), 20_000);
    assert_eq!(server.active_instances.len(), 1);

    let next = server.reset_instances(&mut store, 20_001);
    assert_eq!(next, u64::MAX);
    assert_eq!(server.active_instances.len(), 0);
    assert_eq!(store.instance_meta[0].end_ts, Some(20_001));
    assert!(store.instance_meta[0].expired);
}

#[test]
fn stale_buffer_is_evicted_without_an_event() {
    let armory = armory_with(&[1, 2]);
    let mut store = Store::new();
    let mut server = Server::new(SERVER);
    server.parse_events(&mut store, &armory, vec![spell_cast(1000, 1, 77)]).unwrap();
    assert_eq!(server.non_committed_events.get(1), Some(&vec![spell_cast(1000, 1, 77)]));
    server.parse_events(&mut store, &armory, vec![loot(11_500, 2, 5)]).unwrap();
    assert_eq!(server.non_committed_events.get(1), None);
    assert_eq!(server.committed_events.len(), 0);
}

#[test]
fn cleanup_evicts_only_buffers_older_than_ten_seconds() {
    let mut server = Server::new(SERVER);
    server.push_non_committed_event(spell_cast(1000, 1, 77));
    server.push_non_committed_event(spell_cast(1500, 2, 77));
    server.cleanup(11_000);
    assert_eq!(server.non_committed_events.len(), 2);
    server.cleanup(11_001);
    assert_eq!(server.non_committed_events.len(), 1);
    assert_eq!(server.non_committed_events.get(1), None);
    // a clock that steps backwards evicts nothing
    server.cleanup(0);
    assert_eq!(server.non_committed_events.len(), 1);
}

#[test]
fn rated_arena_start_needs_both_teams() {
    let mut armory = Armory::new();
    armory.arena_teams.push(ArenaTeamRecord { id: 11, server_id: SERVER, team_uid: 1001 });
    armory.arena_teams.push(ArenaTeamRecord { id: 12, server_id: SERVER, team_uid: 1002 });
    let mut store = Store::new();
    let mut server = Server::new(SERVER);
    let start = |instance_id: u32, team_id2: u64| {
        message(
            5,
            MessageType::InstancePvPStartRatedArena(dto::InstanceStartRatedArena {
                map_id: 559,
                instance_id,
                team_id1: 1001,
                team_id2,
            }),
        )
    };
    server.parse_events(&mut store, &armory, vec![start(1, 1002), start(2, 9999)]).unwrap();
    assert_eq!(server.active_instances.len(), 2);
    assert!(store.journal.contains(&StoreOp::InsertRatedArena { instance_meta_id: 1, team_id1: 11, team_id2: 12 }));
    assert_eq!(
        store.journal.iter().filter(|op| matches!(op, StoreOp::InsertRatedArena { .. })).count(),
        1
    );
}
