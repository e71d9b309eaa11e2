//! Why the state stays well formed.
//!
//! Each step that the message loop takes leaves a well-formed state well
//! formed.  The proofs here speak of the models alone; the functions that
//! change a server or a store rest on them.
use vstd::prelude::*;
use crate::armory::Armory;
use crate::correlator::{fresh_buffers, lemma_pass_frame, rest_of, Run};
use crate::cross_reference::{
    aura_ids,
    is_aura_on,
    is_cast_by,
    lemma_aura_ids_are_committed,
    lemma_last_cast_is_committed,
    within_lookback,
    CROSS_REFERENCE_LOOKBACK,
};
use crate::domain_value::{EventParseFailureAction, EventView, InstanceReset, Participant, Unit, UnitInstance};
use crate::dto::{Message, MessageType, Position};
use crate::map_unit::spec_to_unit;
use crate::lifecycle::{
    coherent,
    has_row,
    lemma_match_end_closes_instance,
    lemma_sweep_frame,
    participant_position,
    spec_is_raid_map,
    spec_match_end,
    spec_match_start,
    spec_raid_difficulty,
    without_participants,
    State,
};
use crate::material::{
    buffers_keyed,
    cites_aura,
    cites_cast,
    event_resolved,
    instances_keyed,
    log_resolved,
    participants_distinct,
    with_instances,
    with_resets,
    ServerState,
};
use crate::store::{InstanceMeta, StoreOp, StoreState};
use crate::table::{
    distinct_keys,
    has_key,
    index_of,
    key_among,
    keys_within,
    lemma_index_of,
    lemma_keys_within_next,
    lemma_keys_within_push,
    lemma_with_entry,
    lemma_without_key,
    lookup,
    with_entry,
    Entry,
};

verus! {

/// Loading running instances into a table keeps its keys distinct and
/// every instance under its own id.
pub proof fn lemma_with_instances(table: Seq<Entry<UnitInstance>>, loaded: Seq<UnitInstance>, n: nat)
    requires
        n <= loaded.len(),
        distinct_keys(table),
        instances_keyed(table),
    ensures
        distinct_keys(with_instances(table, loaded, n)),
        instances_keyed(with_instances(table, loaded, n)),
    decreases n,
{
    if n > 0 {
        lemma_with_instances(table, loaded, (n - 1) as nat);
        let before = with_instances(table, loaded, (n - 1) as nat);
        let key = loaded[n - 1].instance_id as u64;
        lemma_with_entry(before, key, loaded[n - 1]);
        if has_key(before, key) {
            lemma_index_of(before, key);
        }
    }
}

/// Loading a reset schedule into a table keeps its keys distinct.
pub proof fn lemma_with_resets(table: Seq<Entry<InstanceReset>>, loaded: Seq<InstanceReset>, n: nat)
    requires
        n <= loaded.len(),
        distinct_keys(table),
    ensures
        distinct_keys(with_resets(table, loaded, n)),
    decreases n,
{
    if n > 0 {
        lemma_with_resets(table, loaded, (n - 1) as nat);
        lemma_with_entry(with_resets(table, loaded, (n - 1) as nat), loaded[n - 1].map_id as u64, loaded[n - 1]);
    }
}

/// A server that takes up what a store holds for it stays well formed.
pub proof fn lemma_init_wf(server: ServerState, store: StoreState)
    requires
        server.wf(),
    ensures
        server.init(store).wf(),
{
    let instances = store.load_active_instances(server.server_id, store.instance_meta.len());
    let resets = store.load_instance_resets(server.server_id, store.instance_resets.len());
    lemma_with_instances(server.active_instances, instances, instances.len());
    lemma_with_resets(server.instance_resets, resets, resets.len());
}

/// A message that joins the buffer of its subject leaves the server well
/// formed.
pub proof fn lemma_push_wf(server: ServerState, message: Message)
    requires
        server.wf(),
    ensures
        server.push_non_committed_event(message).wf(),
{
    match message.spec_subject_id() {
        Some(subject_id) => {
            let pending = server.non_committed_events;
            let buffer = match lookup(pending, subject_id) {
                Some(buffer) => buffer.push(message),
                None => seq![message],
            };
            let after = with_entry(pending, subject_id, buffer);
            lemma_with_entry(pending, subject_id, buffer);
            if has_key(pending, subject_id) {
                lemma_index_of(pending, subject_id);
            }
            assert forall|b: int| 0 <= b < after.len() implies {
                &&& (#[trigger] after[b]).value.len() > 0
                &&& forall|i: int|
                    0 <= i < after[b].value.len() ==> (#[trigger] after[b].value[i]).spec_subject_id() == Some(
                        after[b].key,
                    )
            } by {
                if has_key(pending, subject_id) && b == index_of(pending, subject_id) {
                    assert forall|i: int| 0 <= i < after[b].value.len() implies (
                    #[trigger] after[b].value[i]).spec_subject_id() == Some(after[b].key) by {
                        if i < pending[b].value.len() {
                            assert(after[b].value[i] == pending[b].value[i]);
                        }
                    }
                } else if b < pending.len() {
                    assert(after[b] == pending[b]);
                }
            }
        },
        None => {},
    }
}

/// The buffers that stay at a cleanup are buffers that were there, each
/// still alone under its key.
pub proof fn lemma_fresh_buffers(pending: Seq<Entry<Seq<Message>>>, now: u64, n: nat)
    requires
        n <= pending.len(),
        distinct_keys(pending),
        buffers_keyed(pending),
    ensures
        distinct_keys(fresh_buffers(pending, now, n)),
        buffers_keyed(fresh_buffers(pending, now, n)),
        keys_within(fresh_buffers(pending, now, n), pending, n as int),
    decreases n,
{
    if n > 0 {
        lemma_fresh_buffers(pending, now, (n - 1) as nat);
        let before = fresh_buffers(pending, now, (n - 1) as nat);
        lemma_keys_within_next(before, pending, n - 1);
        lemma_keys_within_push(before, pending, n - 1, pending[n - 1].value);
        let after = fresh_buffers(pending, now, n);
        assert forall|b: int| 0 <= b < after.len() implies {
            &&& (#[trigger] after[b]).value.len() > 0
            &&& forall|i: int|
                0 <= i < after[b].value.len() ==> (#[trigger] after[b].value[i]).spec_subject_id() == Some(
                    after[b].key,
                )
        } by {
            if b < before.len() {
                assert(after[b] == before[b]);
            } else {
                assert(after[b] == pending[n - 1]);
            }
        }
    }
}

/// A cleanup leaves the server well formed.
pub proof fn lemma_cleanup_wf(server: ServerState, now: u64)
    requires
        server.wf(),
    ensures
        server.cleanup(now).wf(),
{
    lemma_fresh_buffers(server.non_committed_events, now, server.non_committed_events.len());
}

/// Records that are added or closed leave every encounter on record that
/// was on record.
pub proof fn lemma_rows_stay(rows: Seq<InstanceMeta>, after: Seq<InstanceMeta>, instance_meta_id: u32)
    requires
        has_row(rows, instance_meta_id),
        rows.len() <= after.len(),
        forall|j: int| 0 <= j < rows.len() ==> (#[trigger] after[j]).id == rows[j].id,
    ensures
        has_row(after, instance_meta_id),
{
    let j = choose|j: int| 0 <= j < rows.len() && (#[trigger] rows[j]).id == instance_meta_id;
    assert(after[j].id == instance_meta_id);
}

/// Instances stay on record in a store whose records were only added to
/// or closed.
pub proof fn lemma_coherent_stays(
    instances: Seq<Entry<UnitInstance>>,
    rows: Seq<InstanceMeta>,
    after: Seq<InstanceMeta>,
)
    requires
        coherent(instances, rows),
        rows.len() <= after.len(),
        forall|j: int| 0 <= j < rows.len() ==> (#[trigger] after[j]).id == rows[j].id,
    ensures
        coherent(instances, after),
{
    assert forall|i: int| 0 <= i < instances.len() implies has_row(
        after,
        (#[trigger] instances[i]).value.instance_meta_id,
    ) by {
        lemma_rows_stay(rows, after, instances[i].value.instance_meta_id);
    }
}

/// Opening an encounter leaves the state well formed.
pub proof fn lemma_create_wf(state: State, start_ts: u64, instance_id: u32, map_id: u32, map_difficulty: u8)
    requires
        state.wf(),
    ensures
        state.create_instance_meta(start_ts, instance_id, map_id, map_difficulty).wf(),
{
    state.store.lemma_create_wf(state.server.server_id, start_ts, instance_id, map_id);
    if state.can_create(instance_id, map_id) {
        let after = state.create_instance_meta(start_ts, instance_id, map_id, map_difficulty);
        let instance = UnitInstance {
            instance_meta_id: state.store.next_instance_meta_id,
            entered: start_ts,
            map_id,
            map_difficulty,
            instance_id,
        };
        lemma_with_entry(state.server.active_instances, instance_id as u64, instance);
        lemma_coherent_stays(state.server.active_instances, state.store.instance_meta, after.store.instance_meta);
        assert(after.store.instance_meta[state.store.instance_meta.len() as int].id
            == state.store.next_instance_meta_id);
        assert forall|i: int| 0 <= i < after.server.active_instances.len() implies has_row(
            after.store.instance_meta,
            (#[trigger] after.server.active_instances[i]).value.instance_meta_id,
        ) by {
            if i < state.server.active_instances.len() {
                assert(after.server.active_instances[i] == state.server.active_instances[i]);
            }
        }
    }
}

/// Where a character is found on a roster, and that nobody before that
/// place is that character.
pub proof fn lemma_participant_position(
    participants: Seq<Participant>,
    instance_meta_id: u32,
    character_id: u32,
    from: int,
)
    requires
        0 <= from <= participants.len(),
    ensures
        from <= participant_position(participants, instance_meta_id, character_id, from) <= participants.len(),
        ({
            let at = participant_position(participants, instance_meta_id, character_id, from);
            at < participants.len() ==> participants[at].instance_meta_id == instance_meta_id
                && participants[at].character_id == character_id
        }),
        forall|i: int|
            from <= i < participant_position(participants, instance_meta_id, character_id, from) ==> !((
            #[trigger] participants[i]).instance_meta_id == instance_meta_id && participants[i].character_id
                == character_id),
    decreases participants.len() - from,
{
    if from < participants.len() && !(participants[from].instance_meta_id == instance_meta_id
        && participants[from].character_id == character_id) {
        lemma_participant_position(participants, instance_meta_id, character_id, from + 1);
    }
}

/// Entering a character into a roster leaves the state well formed.
pub proof fn lemma_upsert_participant_wf(state: State, instance_meta_id: u32, character_id: u32, history_id: Option<u32>)
    requires
        state.wf(),
    ensures
        state.upsert_participant(instance_meta_id, character_id, history_id).wf(),
{
    let participants = state.server.instance_participants;
    let after = state.upsert_participant(instance_meta_id, character_id, history_id).server.instance_participants;
    lemma_participant_position(participants, instance_meta_id, character_id, 0);
    let at = participant_position(participants, instance_meta_id, character_id, 0);
    assert forall|i: int, j: int| 0 <= i < j < after.len() implies !((#[trigger] after[i]).instance_meta_id == (
    #[trigger] after[j]).instance_meta_id && after[i].character_id == after[j].character_id) by {
        if after.len() > participants.len() {
            if j < participants.len() {
                assert(after[i] == participants[i] && after[j] == participants[j]);
            } else {
                assert(after[i] == participants[i]);
            }
        } else if after != participants {
            assert(after[i].instance_meta_id == participants[i].instance_meta_id && after[i].character_id
                == participants[i].character_id);
            assert(after[j].instance_meta_id == participants[j].instance_meta_id && after[j].character_id
                == participants[j].character_id);
        }
    }
}

/// Those that stay on the rosters when an encounter is dropped were on
/// them before, and nobody is on a roster twice.
pub proof fn lemma_without_participants_distinct(participants: Seq<Participant>, instance_meta_id: u32, n: nat)
    requires
        n <= participants.len(),
        participants_distinct(participants),
    ensures
        participants_distinct(without_participants(participants, instance_meta_id, n)),
        forall|x: int|
            0 <= x < without_participants(participants, instance_meta_id, n).len() ==> among_participants(
                participants,
                n as int,
                #[trigger] without_participants(participants, instance_meta_id, n)[x],
            ),
    decreases n,
{
    if n > 0 {
        lemma_without_participants_distinct(participants, instance_meta_id, (n - 1) as nat);
        let before = without_participants(participants, instance_meta_id, (n - 1) as nat);
        let after = without_participants(participants, instance_meta_id, n);
        assert forall|x: int| 0 <= x < after.len() implies among_participants(
            participants,
            n as int,
            #[trigger] after[x],
        ) by {
            if x < before.len() {
                assert(among_participants(participants, n - 1, before[x]));
                let i = choose|i: int| 0 <= i < n - 1 && (#[trigger] participants[i]) == before[x];
                assert(participants[i] == after[x]);
            } else {
                assert(participants[n - 1] == after[x]);
            }
        }
        assert forall|x: int, y: int| 0 <= x < y < after.len() implies !((#[trigger] after[x]).instance_meta_id == (
        #[trigger] after[y]).instance_meta_id && after[x].character_id == after[y].character_id) by {
            if y < before.len() {
                assert(after[x] == before[x] && after[y] == before[y]);
            } else {
                assert(among_participants(participants, n - 1, before[x]));
                let i = choose|i: int| 0 <= i < n - 1 && (#[trigger] participants[i]) == before[x];
                assert(!(participants[i].instance_meta_id == participants[n - 1].instance_meta_id
                    && participants[i].character_id == participants[n - 1].character_id));
            }
        }
    }
}

/// One of the first `n` participants is `participant`.
pub open spec fn among_participants(participants: Seq<Participant>, n: int, participant: Participant) -> bool {
    exists|i: int| 0 <= i < n && (#[trigger] participants[i]) == participant
}

/// Taking up a position report leaves the state well formed.
pub proof fn lemma_track_position_wf(state: State, armory: Armory, timestamp: u64, position: Position)
    requires
        state.wf(),
    ensures
        state.track_position(armory, timestamp, position).wf(),
{
    let difficulty = spec_raid_difficulty(position.map_id, position.map_difficulty);
    lemma_create_wf(state, timestamp, position.instance_id, position.map_id, difficulty);
    let opened = if spec_is_raid_map(position.map_id) {
        state.open_raid(timestamp, position)
    } else {
        state
    };
    assert(opened.wf());
    lemma_with_entry(opened.server.unit_instance_id, position.unit.unit_id, position.instance_id);
    let seen = State {
        server: ServerState {
            unit_instance_id: with_entry(opened.server.unit_instance_id, position.unit.unit_id, position.instance_id),
            ..opened.server
        },
        ..opened
    };
    assert(seen.wf());
    match lookup(seen.server.active_instances, position.instance_id as u64) {
        Some(instance) => match spec_to_unit(
            position.unit,
            armory,
            seen.server.server_id,
            seen.server.summons,
        ) {
            Ok(Unit::Player(player)) => {
                lemma_upsert_participant_wf(seen, instance.instance_meta_id, player.character_id, player.history_id);
            },
            _ => {},
        },
        None => {},
    }
}

/// Taking up the start of a match leaves the state well formed.
pub proof fn lemma_open_match_wf(
    state: State,
    timestamp: u64,
    instance_id: u32,
    map_id: u32,
    mode: Option<StoreOp>,
)
    requires
        state.wf(),
    ensures
        state.open_match(timestamp, instance_id, map_id, mode).wf(),
{
    lemma_create_wf(state, timestamp, instance_id, map_id, 0);
}

/// Taking up the end of a match leaves the state well formed.
pub proof fn lemma_close_match_wf(state: State, timestamp: u64, message: Message)
    requires
        state.wf(),
    ensures
        state.close_match(timestamp, message.message_type).wf(),
{
    match spec_match_end(message.message_type, 0) {
        Some((instance_id, _)) => {
            match lookup(state.server.active_instances, instance_id as u64) {
                Some(instance) => {
                    let after = state.close_match(timestamp, message.message_type);
                    state.store.lemma_finalize_wf(instance.instance_meta_id, timestamp);
                    lemma_without_participants_distinct(
                        state.server.instance_participants,
                        instance.instance_meta_id,
                        state.server.instance_participants.len(),
                    );
                    lemma_without_key(state.server.active_instances, instance_id as u64);
                    lemma_index_of(state.server.active_instances, instance_id as u64);
                    let at = index_of(state.server.active_instances, instance_id as u64);
                    assert forall|i: int| 0 <= i < after.server.active_instances.len() implies (
                    #[trigger] after.server.active_instances[i]) == state.server.active_instances[if i < at {
                        i
                    } else {
                        i + 1
                    }] by {}
                    lemma_coherent_stays(
                        state.server.active_instances,
                        state.store.instance_meta,
                        after.store.instance_meta,
                    );
                    assert forall|i: int| 0 <= i < after.server.active_instances.len() implies has_row(
                        after.store.instance_meta,
                        (#[trigger] after.server.active_instances[i]).value.instance_meta_id,
                    ) by {
                        let j = if i < at {
                            i
                        } else {
                            i + 1
                        };
                        assert(after.server.active_instances[i] == state.server.active_instances[j]);
                    }
                    assert(instances_keyed(after.server.active_instances)) by {
                        assert forall|i: int| 0 <= i < after.server.active_instances.len() implies (
                        #[trigger] after.server.active_instances[i]).key
                            == after.server.active_instances[i].value.instance_id by {
                            let j = if i < at {
                                i
                            } else {
                                i + 1
                            };
                            assert(after.server.active_instances[i] == state.server.active_instances[j]);
                        }
                    }
                },
                None => {},
            }
        },
        None => {},
    }
}

/// Taking up what a message says of summons, positions and matches
/// leaves the state well formed.
pub proof fn lemma_extract_wf(state: State, armory: Armory, message: Message)
    requires
        state.wf(),
    ensures
        state.extract_meta_information(armory, message).wf(),
{
    match message.message_type {
        MessageType::Summon(summon) => {
            lemma_with_entry(state.server.summons, summon.owner.unit_id, summon.unit.unit_id);
        },
        MessageType::Position(position) => {
            lemma_track_position_wf(state, armory, message.timestamp, position);
        },
        MessageType::InstancePvPStartUnratedArena(start) => {
            lemma_open_match_wf(
                state,
                message.timestamp,
                start.instance_id,
                start.map_id,
                spec_match_start(
                    armory,
                    state.server.server_id,
                    message.message_type,
                    state.store.next_instance_meta_id,
                ),
            );
        },
        MessageType::InstancePvPStartRatedArena(start) => {
            lemma_open_match_wf(
                state,
                message.timestamp,
                start.instance_id,
                start.map_id,
                spec_match_start(
                    armory,
                    state.server.server_id,
                    message.message_type,
                    state.store.next_instance_meta_id,
                ),
            );
        },
        MessageType::InstancePvPStartBattleground(start) => {
            lemma_open_match_wf(
                state,
                message.timestamp,
                start.instance_id,
                start.map_id,
                spec_match_start(
                    armory,
                    state.server.server_id,
                    message.message_type,
                    state.store.next_instance_meta_id,
                ),
            );
        },
        MessageType::InstancePvPEndUnratedArena(_) => {
            lemma_close_match_wf(state, message.timestamp, message);
        },
        MessageType::InstancePvPEndRatedArena(_) => {
            lemma_close_match_wf(state, message.timestamp, message);
        },
        MessageType::InstancePvPEndBattleground(_) => {
            lemma_close_match_wf(state, message.timestamp, message);
        },
        _ => {},
    }
}

/// The running instances that stay at a reset sweep are instances that
/// ran before, and the state stays well formed.
pub proof fn lemma_sweep_wf(state: State, now: u64, n: nat)
    requires
        n <= state.server.active_instances.len(),
        state.wf(),
    ensures
        state.sweep(now, n).wf(),
        keys_within(state.sweep(now, n).server.active_instances, state.server.active_instances, n as int),
        state.sweep(now, n).store.instance_meta.len() == state.store.instance_meta.len(),
        forall|j: int|
            0 <= j < state.store.instance_meta.len() ==> (#[trigger] state.sweep(now, n).store.instance_meta[j]).id
                == state.store.instance_meta[j].id,
    decreases n,
{
    if n > 0 {
        lemma_sweep_wf(state, now, (n - 1) as nat);
        lemma_sweep_frame(state, now, (n - 1) as nat);
        let before = state.sweep(now, (n - 1) as nat);
        let after = state.sweep(now, n);
        let entry = state.server.active_instances[n - 1];
        before.store.lemma_finalize_wf(entry.value.instance_meta_id, now);
        lemma_without_participants_distinct(
            before.server.instance_participants,
            entry.value.instance_meta_id,
            before.server.instance_participants.len(),
        );
        lemma_keys_within_next(before.server.active_instances, state.server.active_instances, n - 1);
        lemma_keys_within_push(before.server.active_instances, state.server.active_instances, n - 1, entry.value);
        lemma_coherent_stays(state.server.active_instances, state.store.instance_meta, after.store.instance_meta);
        assert(has_row(after.store.instance_meta, entry.value.instance_meta_id));
        lemma_coherent_stays(before.server.active_instances, before.store.instance_meta, after.store.instance_meta);
        assert forall|i: int| 0 <= i < after.server.active_instances.len() implies has_row(
            after.store.instance_meta,
            (#[trigger] after.server.active_instances[i]).value.instance_meta_id,
        ) && after.server.active_instances[i].key == after.server.active_instances[i].value.instance_id by {
            if i < before.server.active_instances.len() {
                assert(after.server.active_instances[i] == before.server.active_instances[i]);
            } else {
                assert(after.server.active_instances[i] == entry);
            }
        }
    }
}

/// The reset sweep leaves the state well formed.
pub proof fn lemma_reset_wf(state: State, now: u64)
    requires
        state.wf(),
    ensures
        state.reset_instances(now).wf(),
{
    lemma_sweep_wf(state, now, state.server.active_instances.len());
}

/// What an event refers to is in the log of the encounter of its
/// subject, provided the buffer that gave the event stands under the
/// GUID of the subject of its first message.
pub proof fn lemma_commit_resolved(server: ServerState, armory: Armory, buffer: Seq<Message>, key: u64, next: Message)
    requires
        buffer.len() > 0,
        buffer[0].spec_subject_id() == Some(key),
        server.commit_event(armory, buffer, next) is Ok,
        server.encounter_of(key) is Some,
    ensures
        event_resolved(
            server.log_of(server.encounter_of(key)->Some_0),
            server.commit_event(armory, buffer, next)->Ok_0,
        ),
{
    reveal(ServerState::commit_event);
    let event = server.commit_event(armory, buffer, next)->Ok_0;
    let log = server.log_of(server.encounter_of(key)->Some_0);
    let timestamp = buffer[0].timestamp;
    match buffer[0].message_type {
        MessageType::Interrupt(m) => {
            lemma_last_cast_is_committed(log, event.subject, Some(m.interrupted_spell_id), timestamp, log.len());
        },
        MessageType::Dispel(m) => {
            let on = spec_to_unit(m.target, armory, server.server_id, server.summons)->Ok_0;
            lemma_last_cast_is_committed(log, event.subject, None, timestamp, log.len());
            lemma_aura_ids_are_committed(log, on, m.dispelled_spell_id, timestamp, log.len());
            let targets = aura_ids(log, on, m.dispelled_spell_id, timestamp, log.len());
            assert forall|k: int| 0 <= k < targets.len() implies cites_aura(log, #[trigger] targets[k], timestamp) by {
                let i = choose|i: int|
                    0 <= i < log.len() && (#[trigger] log[i]).id == targets[k] && is_aura_on(
                        log[i],
                        on,
                        m.dispelled_spell_id,
                        timestamp,
                    );
                assert(log[i].id == targets[k]);
            }
        },
        MessageType::SpellSteal(m) => {
            let on = spec_to_unit(m.target, armory, server.server_id, server.summons)->Ok_0;
            lemma_last_cast_is_committed(log, event.subject, None, timestamp, log.len());
            lemma_aura_ids_are_committed(log, on, m.spell_id, timestamp, log.len());
            let targets = aura_ids(log, on, m.spell_id, timestamp, log.len());
            let i = choose|i: int|
                0 <= i < log.len() && (#[trigger] log[i]).id == targets[0] && is_aura_on(
                    log[i],
                    on,
                    m.spell_id,
                    timestamp,
                );
            assert(log[i].id == targets[0]);
        },
        _ => {},
    }
}

/// A log stays resolved when an event joins it that refers only to
/// events of the log.
pub proof fn lemma_log_push_resolved(log: Seq<EventView>, event: EventView)
    requires
        log_resolved(log),
        event_resolved(log, event),
    ensures
        log_resolved(log.push(event)),
{
    let longer = log.push(event);
    assert forall|i: int| 0 <= i < longer.len() implies event_resolved(longer.take(i), #[trigger] longer[i]) by {
        if i < log.len() {
            assert(longer.take(i) =~= log.take(i));
            assert(longer[i] == log[i]);
        } else {
            assert(longer.take(i) =~= log);
        }
    }
}

/// Committing an event that refers only to events of its log leaves the
/// state well formed, and the pending buffers as they are.
pub proof fn lemma_emit_wf(state: State, subject_id: u64, event: EventView)
    requires
        state.wf(),
        state.server.encounter_of(subject_id) is Some ==> event_resolved(
            state.server.log_of(state.server.encounter_of(subject_id)->Some_0),
            event,
        ),
    ensures
        state.emit(subject_id, event).wf(),
        state.emit(subject_id, event).server.non_committed_events == state.server.non_committed_events,
{
    match state.server.encounter_of(subject_id) {
        Some(encounter) => {
            let logs = state.server.committed_events;
            let log = state.server.log_of(encounter);
            if !(log.len() >= u32::MAX || !state.store.online) {
                let id = (log.len() + 1) as u32;
                let numbered = event.with_id(id);
                let after = with_entry(logs, encounter as u64, log.push(numbered));
                lemma_with_entry(logs, encounter as u64, log.push(numbered));
                if has_key(logs, encounter as u64) {
                    lemma_index_of(logs, encounter as u64);
                    assert(log == logs[index_of(logs, encounter as u64)].value);
                    assert(log_resolved(log));
                } else {
                    assert(log =~= Seq::empty());
                }
                assert(event_resolved(log, numbered));
                lemma_log_push_resolved(log, numbered);
                let at = if has_key(logs, encounter as u64) {
                    index_of(logs, encounter as u64)
                } else {
                    logs.len() as int
                };
                assert forall|l: int| 0 <= l < after.len() implies log_resolved((#[trigger] after[l]).value) by {
                    if l != at {
                        assert(after[l] == logs[l]);
                    }
                }
                assert forall|l: int, i: int| 0 <= l < after.len() && 0 <= i < after[l].value.len() implies (
                #[trigger] after[l].value[i]).id == i + 1 by {
                    if l != at {
                        assert(after[l] == logs[l]);
                    } else if i < log.len() {
                        assert(after[l].value[i] == log[i]);
                        if has_key(logs, encounter as u64) {
                            assert(logs[at].value[i].id == i + 1);
                        }
                    }
                }
            }
        },
        None => {},
    }
}

/// Holding one buffer against the next message leaves the state well
/// formed, provided the buffer is none of the pending ones.  What stays
/// of the buffer goes behind the pending buffers under its old key.
pub proof fn lemma_decide_wf(state: State, armory: Armory, buffer: Entry<Seq<Message>>, next: Message)
    requires
        state.wf(),
        buffer.value.len() > 0,
        forall|i: int| 0 <= i < buffer.value.len() ==> (#[trigger] buffer.value[i]).spec_subject_id() == Some(buffer.key),
        !has_key(state.server.non_committed_events, buffer.key),
    ensures
        state.decide(armory, buffer, next).wf(),
        ({
            let pending = state.decide(armory, buffer, next).server.non_committed_events;
            ||| pending == state.server.non_committed_events
            ||| pending == state.server.non_committed_events.push(
                Entry { key: buffer.key, value: pending.last().value },
            )
        }),
{
    let rest = rest_of(buffer);
    assert(buffer.value.len() > 1 ==> rest[0].value.len() > 0 && forall|i: int|
        0 <= i < rest[0].value.len() ==> (#[trigger] rest[0].value[i]) == buffer.value[i + 1]);
    match state.server.commit_event(armory, buffer.value, next) {
        Ok(event) => {
            if state.server.encounter_of(buffer.key) is Some {
                lemma_commit_resolved(state.server, armory, buffer.value, buffer.key, next);
            }
            lemma_emit_wf(state, buffer.key, event);
            let emitted = state.emit(buffer.key, event);
            if !(event.event is SpellCast) {
                lemma_keep_wf(emitted, buffer.key, rest);
            }
        },
        Err(EventParseFailureAction::DiscardAll) => {},
        Err(EventParseFailureAction::DiscardFirst) => {
            lemma_keep_wf(state, buffer.key, rest);
        },
        Err(EventParseFailureAction::Wait) => {
            assert(seq![buffer][0] == buffer);
            lemma_keep_wf(state, buffer.key, seq![buffer]);
        },
    }
}

/// At most one buffer that goes behind the pending buffers under a key
/// none of them has leaves the state well formed.
pub proof fn lemma_keep_wf(state: State, key: u64, buffers: Seq<Entry<Seq<Message>>>)
    requires
        state.wf(),
        buffers.len() <= 1,
        !has_key(state.server.non_committed_events, key),
        buffers.len() == 1 ==> buffers[0].key == key && buffers[0].value.len() > 0 && forall|i: int|
            0 <= i < buffers[0].value.len() ==> (#[trigger] buffers[0].value[i]).spec_subject_id() == Some(key),
    ensures
        state.keep(buffers).wf(),
        buffers.len() == 0 ==> state.keep(buffers).server.non_committed_events
            == state.server.non_committed_events,
        buffers.len() == 1 ==> state.keep(buffers).server.non_committed_events
            == state.server.non_committed_events.push(buffers[0]),
{
    let pending = state.server.non_committed_events;
    let after = state.keep(buffers).server.non_committed_events;
    if buffers.len() == 0 {
        assert(after =~= pending);
    } else {
        assert(after =~= pending.push(buffers[0]));
        assert forall|x: int, y: int| 0 <= x < y < after.len() implies (#[trigger] after[x]).key != (
        #[trigger] after[y]).key by {
            if y < pending.len() {
                assert(pending[x].key != pending[y].key);
            } else {
                assert(pending[x].key != key);
            }
        }
        assert forall|b: int| 0 <= b < after.len() implies {
            &&& (#[trigger] after[b]).value.len() > 0
            &&& forall|i: int|
                0 <= i < after[b].value.len() ==> (#[trigger] after[b].value[i]).spec_subject_id() == Some(
                    after[b].key,
                )
        } by {
            if b < pending.len() {
                assert(after[b] == pending[b]);
            }
        }
    }
}

/// A pass over the pending buffers leaves the state well formed, and the
/// buffers that stay under keys that were there.
pub proof fn lemma_pass_wf(state: State, armory: Armory, next: Message, n: nat)
    requires
        state.wf(),
        n <= state.server.non_committed_events.len(),
    ensures
        state.pass(armory, next, n).wf(),
        keys_within(
            state.pass(armory, next, n).server.non_committed_events,
            state.server.non_committed_events,
            n as int,
        ),
    decreases n,
{
    if n > 0 {
        lemma_pass_wf(state, armory, next, (n - 1) as nat);
        let before = state.pass(armory, next, (n - 1) as nat);
        let buffer = state.server.non_committed_events[n - 1];
        lemma_keys_within_push(
            before.server.non_committed_events,
            state.server.non_committed_events,
            n - 1,
            buffer.value,
        );
        lemma_decide_wf(before, armory, buffer, next);
        let after = state.pass(armory, next, n);
        let pending = after.server.non_committed_events;
        if pending == before.server.non_committed_events {
            lemma_keys_within_next(before.server.non_committed_events, state.server.non_committed_events, n - 1);
        } else {
            lemma_keys_within_push(
                before.server.non_committed_events,
                state.server.non_committed_events,
                n - 1,
                pending.last().value,
            );
        }
    }
}

/// Processing a message leaves the state well formed.
pub proof fn lemma_step_wf(run: Run, armory: Armory, message: Message)
    requires
        run.state.wf(),
    ensures
        run.step(armory, message).state.wf(),
{
    let now = message.timestamp;
    let read = run.state.extract_meta_information(armory, message);
    lemma_extract_wf(run.state, armory, message);
    let tested = read.test_for_committable_events(armory, message);
    lemma_pass_wf(read, armory, message, read.server.non_committed_events.len());
    let cleaned = State { server: tested.server.cleanup(now), ..tested };
    lemma_cleanup_wf(tested.server, now);
    assert(cleaned.wf());
    lemma_reset_wf(cleaned, now);
    let swept = if now >= run.next_reset {
        cleaned.reset_instances(now)
    } else {
        cleaned
    };
    let processed = if now >= run.next_post_processing {
        State { store: swept.store.record(StoreOp::PostProcess { timestamp: now }), ..swept }
    } else {
        swept
    };
    assert(processed.wf());
    lemma_push_wf(processed.server, message);
}

/// Processing a batch of messages leaves the state well formed.
pub proof fn lemma_run_wf(run: Run, armory: Armory, messages: Seq<Message>, n: nat)
    requires
        run.state.wf(),
        n <= messages.len(),
    ensures
        run.run(armory, messages, n).state.wf(),
    decreases n,
{
    if n > 0 {
        lemma_run_wf(run, armory, messages, (n - 1) as nat);
        lemma_step_wf(run.run(armory, messages, (n - 1) as nat), armory, messages[n - 1]);
    }
}

/// In a well-formed server the events of every encounter carry the ids
/// `1, 2, 3, ...` in the order in which they were committed.
pub proof fn lemma_ids_count_from_one(server: ServerState, l: int, i: int)
    requires
        server.wf(),
        0 <= l < server.committed_events.len(),
        0 <= i < server.committed_events[l].value.len(),
    ensures
        server.committed_events[l].value[i].id == i + 1,
        server.committed_events[l].value.len() <= u32::MAX,
{
    let log = server.committed_events[l].value;
    assert(log[log.len() - 1].id == log.len());
}

/// In a well-formed server every interrupt points at a cast that was
/// committed before it in the same encounter: a cast of the interrupted
/// spell by the subject of the interrupt, no more than the lookback
/// window before it.
pub proof fn lemma_interrupt_refers_to_cast(server: ServerState, l: int, i: int)
    requires
        server.wf(),
        0 <= l < server.committed_events.len(),
        0 <= i < server.committed_events[l].value.len(),
        server.committed_events[l].value[i].event is Interrupt,
    ensures
        ({
            let log = server.committed_events[l].value;
            exists|j: int|
                0 <= j < i && (#[trigger] log[j]).id == log[i].event->Interrupt_cause_event_id && log[j].subject
                    == log[i].subject && log[j].event is SpellCast && log[j].event->SpellCast_0.spell_id
                    == log[i].event->Interrupt_interrupted_spell_id && log[i].timestamp - log[j].timestamp
                    <= CROSS_REFERENCE_LOOKBACK
        }),
{
    let log = server.committed_events[l].value;
    assert(log_resolved(server.committed_events[l].value));
    assert(event_resolved(log.take(i), log[i]));
    let before = log.take(i);
    let cause = log[i].event->Interrupt_cause_event_id;
    let spell = log[i].event->Interrupt_interrupted_spell_id;
    assert(cites_cast(before, cause, log[i].subject, Some(spell), log[i].timestamp));
    let j = choose|j: int|
        0 <= j < before.len() && (#[trigger] before[j]).id == cause && is_cast_by(
            before[j],
            log[i].subject,
            Some(spell),
            log[i].timestamp,
        );
    assert(before[j] == log[j]);
}

/// In a well-formed server every dispel points at a cast by its subject
/// and at one or more aura applications, all committed before it in the
/// same encounter and no more than the lookback window before it.
pub proof fn lemma_dispel_refers_to_auras(server: ServerState, l: int, i: int, k: int)
    requires
        server.wf(),
        0 <= l < server.committed_events.len(),
        0 <= i < server.committed_events[l].value.len(),
        server.committed_events[l].value[i].event is Dispel,
        0 <= k < server.committed_events[l].value[i].event->Dispel_target_event_ids.len(),
    ensures
        ({
            let log = server.committed_events[l].value;
            &&& log[i].event->Dispel_target_event_ids.len() >= 1
            &&& exists|j: int|
                0 <= j < i && (#[trigger] log[j]).id == log[i].event->Dispel_cause_event_id && log[j].subject
                    == log[i].subject && log[j].event is SpellCast && log[i].timestamp - log[j].timestamp
                    <= CROSS_REFERENCE_LOOKBACK
            &&& exists|j: int|
                0 <= j < i && (#[trigger] log[j]).id == log[i].event->Dispel_target_event_ids[k]
                    && log[j].event is AuraApplication && log[i].timestamp - log[j].timestamp
                    <= CROSS_REFERENCE_LOOKBACK
        }),
{
    let log = server.committed_events[l].value;
    assert(log_resolved(server.committed_events[l].value));
    assert(event_resolved(log.take(i), log[i]));
    let before = log.take(i);
    let cause = log[i].event->Dispel_cause_event_id;
    let targets = log[i].event->Dispel_target_event_ids;
    assert(cites_cast(before, cause, log[i].subject, None, log[i].timestamp));
    let j = choose|j: int|
        0 <= j < before.len() && (#[trigger] before[j]).id == cause && is_cast_by(
            before[j],
            log[i].subject,
            None,
            log[i].timestamp,
        );
    assert(before[j] == log[j]);
    assert(cites_aura(before, targets[k], log[i].timestamp));
    let a = choose|a: int|
        0 <= a < before.len() && (#[trigger] before[a]).id == targets[k] && before[a].event is AuraApplication
            && within_lookback(before[a].timestamp, log[i].timestamp);
    assert(before[a] == log[a]);
}

/// The end of a match closes its instance for good.  After the message
/// was processed no instance runs under the id of the match, and, where
/// the store was online, the encounter is on record as expired.
pub proof fn lemma_match_end_is_final(run: Run, armory: Armory, message: Message)
    requires
        run.state.wf(),
        spec_match_end(message.message_type, 0) is Some,
        has_key(run.state.server.active_instances, spec_match_end(message.message_type, 0)->Some_0.0 as u64),
    ensures
        ({
            let instance_id = spec_match_end(message.message_type, 0)->Some_0.0;
            let instance = lookup(run.state.server.active_instances, instance_id as u64)->Some_0;
            let after = run.step(armory, message).state;
            &&& !has_key(after.server.active_instances, instance_id as u64)
            &&& run.state.store.online ==> exists|j: int|
                0 <= j < after.store.instance_meta.len() && (#[trigger] after.store.instance_meta[j]).id
                    == instance.instance_meta_id && after.store.instance_meta[j].expired
                    && after.store.instance_meta[j].end_ts is Some
        }),
{
    let state = run.state;
    let now = message.timestamp;
    let instance_id = spec_match_end(message.message_type, 0)->Some_0.0;
    let key = instance_id as u64;
    let instance = lookup(state.server.active_instances, key)->Some_0;
    lemma_index_of(state.server.active_instances, key);
    let read = state.extract_meta_information(armory, message);
    lemma_match_end_closes_instance(state, armory, message);
    lemma_extract_wf(state, armory, message);
    assert(has_row(state.store.instance_meta, instance.instance_meta_id));
    let row = choose|j: int|
        0 <= j < state.store.instance_meta.len() && (#[trigger] state.store.instance_meta[j]).id
            == instance.instance_meta_id;
    let tested = read.test_for_committable_events(armory, message);
    lemma_pass_frame(read, armory, message, read.server.non_committed_events.len());
    lemma_pass_wf(read, armory, message, read.server.non_committed_events.len());
    let cleaned = State { server: tested.server.cleanup(now), ..tested };
    lemma_cleanup_wf(tested.server, now);
    assert(cleaned.server.active_instances == read.server.active_instances);
    assert(cleaned.store.instance_meta == read.store.instance_meta);
    assert(!has_key(cleaned.server.active_instances, key));
    assert(cleaned.store.instance_meta.len() == state.store.instance_meta.len());
    assert(state.store.online ==> cleaned.store.instance_meta[row].expired && cleaned.store.instance_meta[row].end_ts
        is Some && cleaned.store.instance_meta[row].id == instance.instance_meta_id);
    let reset = cleaned.reset_instances(now);
    lemma_sweep_wf(cleaned, now, cleaned.server.active_instances.len());
    lemma_sweep_keeps_expired(cleaned, now, cleaned.server.active_instances.len(), row);
    assert(!has_key(reset.server.active_instances, key)) by {
        if has_key(reset.server.active_instances, key) {
            let x = choose|x: int|
                0 <= x < reset.server.active_instances.len() && (#[trigger] reset.server.active_instances[x]).key
                    == key;
            assert(key_among(
                cleaned.server.active_instances,
                cleaned.server.active_instances.len() as int,
                reset.server.active_instances[x].key,
            ));
        }
    }
    let swept = if now >= run.next_reset {
        reset
    } else {
        cleaned
    };
    assert(!has_key(swept.server.active_instances, key));
    assert(state.store.online ==> swept.store.instance_meta[row].expired && swept.store.instance_meta[row].end_ts
        is Some && swept.store.instance_meta[row].id == instance.instance_meta_id);
    let after = run.step(armory, message).state;
    assert(after.server.active_instances == swept.server.active_instances);
    assert(after.store.instance_meta == swept.store.instance_meta);
    assert(state.store.online ==> after.store.instance_meta[row].id == instance.instance_meta_id);
}

/// A record that is expired and has an end keeps both through the reset
/// sweep, and the store stays as it is online or not.
pub proof fn lemma_sweep_keeps_expired(state: State, now: u64, n: nat, row: int)
    requires
        n <= state.server.active_instances.len(),
        0 <= row < state.store.instance_meta.len(),
    ensures
        state.sweep(now, n).store.instance_meta.len() == state.store.instance_meta.len(),
        state.sweep(now, n).store.instance_meta[row].id == state.store.instance_meta[row].id,
        state.store.instance_meta[row].expired ==> state.sweep(now, n).store.instance_meta[row].expired,
        state.store.instance_meta[row].end_ts is Some ==> state.sweep(now, n).store.instance_meta[row].end_ts
            == state.store.instance_meta[row].end_ts,
    decreases n,
{
    if n > 0 {
        lemma_sweep_keeps_expired(state, now, (n - 1) as nat, row);
    }
}

/// What a store hands out as running is on record in it.
pub proof fn lemma_loaded_have_rows(store: StoreState, server_id: u32, n: nat)
    requires
        n <= store.instance_meta.len(),
    ensures
        forall|k: int|
            0 <= k < store.load_active_instances(server_id, n).len() ==> has_row(
                store.instance_meta,
                (#[trigger] store.load_active_instances(server_id, n)[k]).instance_meta_id,
            ),
    decreases n,
{
    if n > 0 {
        lemma_loaded_have_rows(store, server_id, (n - 1) as nat);
        let before = store.load_active_instances(server_id, (n - 1) as nat);
        let after = store.load_active_instances(server_id, n);
        assert forall|k: int| 0 <= k < after.len() implies has_row(
            store.instance_meta,
            (#[trigger] after[k]).instance_meta_id,
        ) by {
            if k < before.len() {
                assert(after[k] == before[k]);
            } else {
                assert(store.instance_meta[n - 1].id == after[k].instance_meta_id);
            }
        }
    }
}

/// Instances that are on record stay so when instances on record are
/// loaded among them.
pub proof fn lemma_with_instances_coherent(
    table: Seq<Entry<UnitInstance>>,
    loaded: Seq<UnitInstance>,
    n: nat,
    rows: Seq<InstanceMeta>,
)
    requires
        n <= loaded.len(),
        coherent(table, rows),
        forall|k: int| 0 <= k < loaded.len() ==> has_row(rows, (#[trigger] loaded[k]).instance_meta_id),
    ensures
        coherent(with_instances(table, loaded, n), rows),
    decreases n,
{
    if n > 0 {
        lemma_with_instances_coherent(table, loaded, (n - 1) as nat, rows);
        let before = with_instances(table, loaded, (n - 1) as nat);
        let after = with_instances(table, loaded, n);
        let key = loaded[n - 1].instance_id as u64;
        if has_key(before, key) {
            lemma_index_of(before, key);
        }
        assert forall|i: int| 0 <= i < after.len() implies has_row(
            rows,
            (#[trigger] after[i]).value.instance_meta_id,
        ) by {
            if after[i].value != loaded[n - 1] {
                assert(after[i] == before[i]);
            }
        }
    }
}

/// A server that takes up what its store holds for it stays well formed
/// together with the store.
pub proof fn lemma_init_state_wf(state: State)
    requires
        state.wf(),
    ensures
        (State { server: state.server.init(state.store), ..state }).wf(),
{
    let instances = state.store.load_active_instances(state.server.server_id, state.store.instance_meta.len());
    lemma_init_wf(state.server, state.store);
    lemma_loaded_have_rows(state.store, state.server.server_id, state.store.instance_meta.len());
    lemma_with_instances_coherent(
        state.server.active_instances,
        instances,
        instances.len(),
        state.store.instance_meta,
    );
}

} // verus!
