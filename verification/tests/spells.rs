use live_data_processor::armory::{Armory, CharacterRecord};
use live_data_processor::domain_value::{
    Creature, DamageComponent, EventParseFailureAction, Heal, Player, SpellCast, Threat, Unit, HIT_MASK_ABSORB,
    HIT_MASK_CRIT, HIT_MASK_HIT, HIT_MASK_MISS,
};
use live_data_processor::dto;
use live_data_processor::dto::{Message, MessageType};
use live_data_processor::spell::{add_threat, assembly_complete, try_parse_spell_cast, SPELL_ASSEMBLY_WINDOW};
use live_data_processor::table::Table;

const SERVER: u32 = 1;
const BOSS: u64 = 0xF130_0000_0B00_0001;
const ADD: u64 = 0xF130_0000_0C00_0002;

fn armory() -> Armory {
    let mut armory = Armory::new();
    armory.characters.push(CharacterRecord { server_id: SERVER, character_id: 1, last_history_id: Some(11) });
    armory.characters.push(CharacterRecord { server_id: SERVER, character_id: 2, last_history_id: Some(12) });
    armory
}

fn boss() -> Unit {
    Unit::Creature(Creature { entry: 0xB, guid: BOSS })
}

fn add() -> Unit {
    Unit::Creature(Creature { entry: 0xC, guid: ADD })
}

fn player(id: u32) -> Unit {
    Unit::Player(Player { character_id: id, history_id: Some(10 + id), is_owner_player_controlled: false })
}

fn message(timestamp: u64, message_type: MessageType) -> Message {
    Message { api_version: 0, message_length: 0, timestamp, message_type }
}

fn cast(timestamp: u64, caster: u64, spell_id: u32, target: Option<u64>) -> Message {
    message(
        timestamp,
        MessageType::SpellCast(dto::SpellCast {
            caster: dto::Unit { unit_id: caster },
            spell_id,
            target: target.map(|unit_id| dto::Unit { unit_id }),
        }),
    )
}

fn hit(timestamp: u64, attacker: u64, victim: u64, amount: u32, hit_mask: u32) -> Message {
    message(
        timestamp,
        MessageType::SpellDamage(dto::DamageDone {
            attacker: dto::Unit { unit_id: attacker },
            victim: dto::Unit { unit_id: victim },
            spell_id: Some(133),
            amount,
            hit_mask,
            blocked: 1,
            resisted: 2,
            absorbed: 3,
        }),
    )
}

fn melee(timestamp: u64, attacker: u64, victim: u64, amount: u32) -> Message {
    message(
        timestamp,
        MessageType::MeleeDamage(dto::DamageDone {
            attacker: dto::Unit { unit_id: attacker },
            victim: dto::Unit { unit_id: victim },
            spell_id: None,
            amount,
            hit_mask: HIT_MASK_HIT,
            blocked: 0,
            resisted: 0,
            absorbed: 0,
        }),
    )
}

fn heal(timestamp: u64, caster: u64, target: u64, amount: u32, overheal: u32, absorb: u32) -> Message {
    message(
        timestamp,
        MessageType::Heal(dto::HealDone {
            caster: dto::Unit { unit_id: caster },
            target: dto::Unit { unit_id: target },
            spell_id: 2060,
            amount,
            overheal,
            absorb,
        }),
    )
}

fn threat(timestamp: u64, threater: u64, target: u64, spell_id: Option<u32>, amount: i32) -> Message {
    message(
        timestamp,
        MessageType::Threat(dto::Threat {
            threater: dto::Unit { unit_id: threater },
            target: dto::Unit { unit_id: target },
            spell_id,
            amount,
        }),
    )
}

fn loot(timestamp: u64, unit_id: u64) -> Message {
    message(timestamp, MessageType::Loot(dto::Loot { unit: dto::Unit { unit_id }, item_id: 1 }))
}

fn component(victim: Option<Unit>, amount: u32, hit_mask: u32) -> DamageComponent {
    DamageComponent { victim, amount, hit_mask, blocked: 1, resisted: 2, absorbed: 3 }
}

fn assemble(buffer: Vec<Message>, next: Message) -> Result<SpellCast, EventParseFailureAction> {
    try_parse_spell_cast(&armory(), SERVER, &Table::new(), &buffer, &next)
}

#[test]
fn assembly_window_is_400_ms() {
    assert_eq!(SPELL_ASSEMBLY_WINDOW, 400);
}

#[test]
fn spell_waits_while_next_message_is_within_window() {
    let buffer = vec![cast(1000, 1, 133, Some(BOSS))];
    assert_eq!(assemble(buffer.clone(), hit(1000, 1, BOSS, 5, HIT_MASK_HIT)), Err(EventParseFailureAction::Wait));
    assert_eq!(assemble(buffer.clone(), hit(1400, 1, BOSS, 5, HIT_MASK_HIT)), Err(EventParseFailureAction::Wait));
    // a clock that steps backwards is within the window
    assert_eq!(assemble(buffer, hit(900, 1, BOSS, 5, HIT_MASK_HIT)), Err(EventParseFailureAction::Wait));
}

#[test]
fn spell_is_complete_when_next_message_is_beyond_window() {
    let spell = assemble(vec![cast(1000, 1, 133, Some(BOSS))], hit(1401, 1, BOSS, 5, HIT_MASK_HIT));
    assert_eq!(
        spell,
        Ok(SpellCast { spell_id: 133, target: Some(boss()), hit_mask: 0, damages: vec![], heal: None, threat: None })
    );
}

#[test]
fn spell_is_complete_when_next_message_has_another_subject() {
    let buffer = vec![cast(1000, 1, 133, None)];
    assert!(assemble(buffer.clone(), loot(1001, 2)).is_ok());
    let without_subject = message(
        1001,
        MessageType::InstancePvPStartBattleground(dto::InstanceStart { map_id: 30, instance_id: 1 }),
    );
    assert!(assemble(buffer, without_subject).is_ok());
}

#[test]
fn spell_is_complete_when_next_message_is_a_cast() {
    let buffer = vec![cast(1000, 1, 133, None), hit(1010, 1, BOSS, 5, HIT_MASK_HIT)];
    let spell = assemble(buffer, cast(1020, 1, 116, None)).unwrap();
    assert_eq!(spell.spell_id, 133);
    assert_eq!(spell.damages.len(), 1);
}

#[test]
fn completeness_is_decided_by_the_first_message() {
    let head = cast(1000, 1, 133, None);
    assert!(!assembly_complete(&head, &hit(1400, 1, BOSS, 5, HIT_MASK_HIT)));
    assert!(assembly_complete(&head, &hit(1401, 1, BOSS, 5, HIT_MASK_HIT)));
    assert!(assembly_complete(&head, &hit(1000, 2, BOSS, 5, HIT_MASK_HIT)));
    assert!(assembly_complete(&head, &cast(1000, 1, 133, None)));
    let late_head = cast(u64::MAX - 10, 1, 133, None);
    assert!(!assembly_complete(&late_head, &hit(u64::MAX, 1, BOSS, 5, HIT_MASK_HIT)));
}

#[test]
fn only_messages_within_the_window_contribute() {
    let buffer = vec![
        cast(1000, 1, 133, Some(BOSS)),
        hit(999, 1, BOSS, 1, HIT_MASK_MISS),
        hit(1000, 1, BOSS, 2, HIT_MASK_HIT),
        hit(1400, 1, ADD, 3, HIT_MASK_CRIT),
        hit(1401, 1, BOSS, 4, HIT_MASK_ABSORB),
        hit(1200, 2, BOSS, 5, HIT_MASK_ABSORB),
    ];
    let spell = assemble(buffer, loot(5000, 1)).unwrap();
    assert_eq!(
        spell,
        SpellCast {
            spell_id: 133,
            target: Some(boss()),
            hit_mask: HIT_MASK_HIT | HIT_MASK_CRIT,
            damages: vec![component(Some(boss()), 2, HIT_MASK_HIT), component(Some(add()), 3, HIT_MASK_CRIT)],
            heal: None,
            threat: None,
        }
    );
}

#[test]
fn spell_without_cast_starts_with_its_first_message() {
    let spell = assemble(vec![melee(1000, 1, BOSS, 40), melee(1100, 1, ADD, 41)], loot(5000, 1)).unwrap();
    assert_eq!(spell.spell_id, 0);
    assert_eq!(spell.target, Some(boss()));
    assert_eq!(spell.damages.len(), 2);
    assert_eq!(spell.damages[0].amount, 40);
    assert_eq!(spell.damages[1].victim, Some(add()));

    let spell = assemble(vec![hit(1000, 1, BOSS, 40, HIT_MASK_HIT)], loot(5000, 1)).unwrap();
    assert_eq!(spell.spell_id, 133);

    let spell = assemble(vec![heal(1000, 1, 2, 10, 1, 0)], loot(5000, 1)).unwrap();
    assert_eq!(spell.spell_id, 2060);
    assert_eq!(spell.target, Some(player(2)));
    assert_eq!(spell.heal, Some(Heal { target: Some(player(2)), amount: 10, overheal: 1, absorb: 0 }));

    let spell = assemble(vec![threat(1000, 1, BOSS, None, 7)], loot(5000, 1)).unwrap();
    assert_eq!(spell.spell_id, 0);
    assert_eq!(spell.threat, Some(Threat { target: Some(boss()), amount: 7 }));
    let spell = assemble(vec![threat(1000, 1, BOSS, Some(355), 7)], loot(5000, 1)).unwrap();
    assert_eq!(spell.spell_id, 355);
}

#[test]
fn heals_are_summed_and_saturate() {
    let buffer = vec![
        cast(1000, 1, 2060, Some(2)),
        heal(1010, 1, 2, 100, 10, 1),
        heal(1020, 1, 1, 200, 20, 2),
        heal(1500, 1, 1, 400, 40, 4),
    ];
    let spell = assemble(buffer, loot(5000, 1)).unwrap();
    assert_eq!(spell.heal, Some(Heal { target: Some(player(2)), amount: 300, overheal: 30, absorb: 3 }));

    let buffer = vec![heal(1000, 1, 2, u32::MAX - 1, 0, u32::MAX), heal(1001, 1, 2, 5, 0, 0)];
    let spell = assemble(buffer, loot(5000, 1)).unwrap();
    assert_eq!(spell.heal, Some(Heal { target: Some(player(2)), amount: u32::MAX, overheal: 0, absorb: u32::MAX }));
}

#[test]
fn threat_is_summed_and_held_to_range() {
    let buffer = vec![
        cast(1000, 1, 355, Some(BOSS)),
        threat(1010, 1, BOSS, Some(355), 100),
        threat(1020, 1, ADD, None, -30),
    ];
    let spell = assemble(buffer, loot(5000, 1)).unwrap();
    assert_eq!(spell.threat, Some(Threat { target: Some(boss()), amount: 70 }));

    assert_eq!(add_threat(i32::MAX, 1), i32::MAX);
    assert_eq!(add_threat(i32::MIN, -1), i32::MIN);
    assert_eq!(add_threat(i32::MAX, i32::MIN), -1);
    assert_eq!(add_threat(-5, 3), -2);
}

#[test]
fn victim_that_does_not_resolve_is_left_out_of_the_component() {
    let spell = assemble(vec![cast(1000, 1, 133, Some(99)), hit(1010, 1, 99, 5, HIT_MASK_HIT)], loot(5000, 1)).unwrap();
    assert_eq!(spell.target, None);
    assert_eq!(spell.damages, vec![component(None, 5, HIT_MASK_HIT)]);
}

#[test]
fn other_messages_in_the_buffer_contribute_nothing() {
    let buffer = vec![cast(1000, 1, 133, None), loot(1010, 1), cast(1020, 1, 116, None)];
    let spell = assemble(buffer, loot(5000, 1)).unwrap();
    assert_eq!(
        spell,
        SpellCast { spell_id: 133, target: None, hit_mask: 0, damages: vec![], heal: None, threat: None }
    );
}

#[test]
fn buffer_that_opens_no_spell_is_refused() {
    assert_eq!(assemble(vec![], loot(5000, 1)), Err(EventParseFailureAction::DiscardAll));
    assert_eq!(assemble(vec![loot(1000, 1)], loot(5000, 1)), Err(EventParseFailureAction::DiscardFirst));
}
