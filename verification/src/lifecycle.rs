//! The instance lifecycle manager.
//!
//! It reads the same messages as the correlator and keeps the record of
//! the encounters that are running: it opens one at the start of a match
//! or when somebody is first seen on a raid map, keeps its roster, and
//! closes it at the end of the match or when the reset time of its map
//! has passed.
use vstd::prelude::*;
use crate::armory::Armory;
use crate::domain_value::{InstanceReset, Participant, Unit, UnitInstance};
use crate::dto;
use crate::dto::{Message, MessageType};
use crate::map_unit::spec_to_unit;
use crate::material::{Server, ServerState};
use crate::store::{InstanceMeta, Store, StoreOp, StoreState};
use crate::table::{
    distinct_keys,
    has_key,
    lemma_skip_step,
    lookup,
    with_entry,
    without_key,
    Entry,
};

verus! {

/// The server together with the store that it writes to.
pub struct State {
    pub server: ServerState,
    pub store: StoreState,
}

/// Whether `map_id` is a raid map.
pub open spec fn spec_is_raid_map(map_id: u32) -> bool {
    map_id == 249 || map_id == 309 || map_id == 409 || map_id == 469 || map_id == 509 || map_id == 531 || map_id
        == 532 || map_id == 533 || map_id == 534 || map_id == 544 || map_id == 548 || map_id == 550 || map_id == 564
        || map_id == 565 || map_id == 568 || map_id == 580 || map_id == 603 || map_id == 615 || map_id == 616
        || map_id == 624 || map_id == 631 || map_id == 649 || map_id == 724
}

/// The difficulty under which a raid on `map_id` is recorded.  Older
/// clients report it unreliably, so the maps with only one size have that
/// size fixed.
pub open spec fn spec_raid_difficulty(map_id: u32, reported: u8) -> u8 {
    if map_id == 249 || map_id == 409 || map_id == 469 {
        9
    } else if map_id == 309 || map_id == 509 || map_id == 531 {
        148
    } else if map_id == 532 || map_id == 568 {
        3
    } else if map_id == 534 || map_id == 544 || map_id == 548 || map_id == 550 || map_id == 564 || map_id == 565
        || map_id == 580 {
        4
    } else if map_id == 533 {
        if reported == 3 || reported == 4 {
            reported
        } else {
            9
        }
    } else {
        reported
    }
}

/// Whether `map_id` is a raid map.
pub fn is_raid_map(map_id: u32) -> (b: bool)
    ensures
        b == spec_is_raid_map(map_id),
{
    map_id == 249 || map_id == 309 || map_id == 409 || map_id == 469 || map_id == 509 || map_id == 531 || map_id
        == 532 || map_id == 533 || map_id == 534 || map_id == 544 || map_id == 548 || map_id == 550 || map_id == 564
        || map_id == 565 || map_id == 568 || map_id == 580 || map_id == 603 || map_id == 615 || map_id == 616
        || map_id == 624 || map_id == 631 || map_id == 649 || map_id == 724
}

/// The difficulty under which a raid on `map_id` is recorded: `9` for the
/// forty-man maps, `148` for the twenty-man maps, `3` and `4` for the
/// ten-man and twenty-five-man maps, and what was reported elsewhere.
pub fn raid_difficulty(map_id: u32, reported: u8) -> (d: u8)
    ensures
        d == spec_raid_difficulty(map_id, reported),
{
    if map_id == 249 || map_id == 409 || map_id == 469 {
        9
    } else if map_id == 309 || map_id == 509 || map_id == 531 {
        148
    } else if map_id == 532 || map_id == 568 {
        3
    } else if map_id == 534 || map_id == 544 || map_id == 548 || map_id == 550 || map_id == 564 || map_id == 565
        || map_id == 580 {
        4
    } else if map_id == 533 {
        if reported == 3 || reported == 4 {
            reported
        } else {
            9
        }
    } else {
        reported
    }
}

/// The first position from `from` on at which `participants` holds the
/// character `character_id` for the encounter `instance_meta_id`; the
/// length where there is none.
pub open spec fn participant_position(
    participants: Seq<Participant>,
    instance_meta_id: u32,
    character_id: u32,
    from: int,
) -> int
    decreases participants.len() - from,
{
    if from < 0 || from >= participants.len() {
        participants.len() as int
    } else if participants[from].instance_meta_id == instance_meta_id && participants[from].character_id
        == character_id {
        from
    } else {
        participant_position(participants, instance_meta_id, character_id, from + 1)
    }
}

/// Those of the first `n` participants that belong to another encounter
/// than `instance_meta_id`, in their order.
pub open spec fn without_participants(participants: Seq<Participant>, instance_meta_id: u32, n: nat) -> Seq<
    Participant,
>
    decreases n,
{
    if n == 0 {
        Seq::empty()
    } else if participants[n - 1].instance_meta_id == instance_meta_id {
        without_participants(participants, instance_meta_id, (n - 1) as nat)
    } else {
        without_participants(participants, instance_meta_id, (n - 1) as nat).push(participants[n - 1])
    }
}

/// Whether an instance expires at `now`: its map has a reset time that is
/// not before the entry into the instance and that lies before `now`.
pub open spec fn is_due(instance: UnitInstance, resets: Seq<Entry<InstanceReset>>, now: u64) -> bool {
    match lookup(resets, instance.map_id as u64) {
        Some(reset) => instance.entered <= reset.reset_time && reset.reset_time < now,
        None => false,
    }
}

/// The earliest reset time among the first `n` entries that is not before
/// `now`; `u64::MAX` where there is none.
pub open spec fn next_reset(resets: Seq<Entry<InstanceReset>>, now: u64, n: nat) -> u64
    decreases n,
{
    if n == 0 {
        u64::MAX
    } else {
        let before = next_reset(resets, now, (n - 1) as nat);
        let time = resets[n - 1].value.reset_time;
        if time >= now && time < before {
            time
        } else {
            before
        }
    }
}

/// What an end-of-match message says: the instance that ended and the
/// result that goes on record for the encounter `instance_meta_id`.
pub open spec fn spec_match_end(message_type: MessageType, instance_meta_id: u32) -> Option<(u32, StoreOp)> {
    match message_type {
        MessageType::InstancePvPEndUnratedArena(end) => Some(
            (end.instance_id, StoreOp::UpdateSkirmishResult { instance_meta_id, winner: end.winner }),
        ),
        MessageType::InstancePvPEndRatedArena(end) => Some(
            (
                end.instance_id,
                StoreOp::UpdateRatedArenaResult {
                    instance_meta_id,
                    winner: end.winner,
                    team_change1: end.team_change1,
                    team_change2: end.team_change2,
                },
            ),
        ),
        MessageType::InstancePvPEndBattleground(end) => Some(
            (
                end.instance_id,
                StoreOp::UpdateBattlegroundResult {
                    instance_meta_id,
                    winner: end.winner,
                    score_alliance: end.score_alliance,
                    score_horde: end.score_horde,
                },
            ),
        ),
        _ => None,
    }
}

/// What goes on record for a match that starts as encounter
/// `instance_meta_id`; `None` where the teams of a rated match are not
/// both known to the armory.
pub open spec fn spec_match_start(
    armory: Armory,
    server_id: u32,
    message_type: MessageType,
    instance_meta_id: u32,
) -> Option<StoreOp> {
    match message_type {
        MessageType::InstancePvPStartUnratedArena(_) => Some(StoreOp::InsertSkirmish { instance_meta_id }),
        MessageType::InstancePvPStartBattleground(_) => Some(StoreOp::InsertBattleground { instance_meta_id }),
        MessageType::InstancePvPStartRatedArena(start) => match (
            armory.spec_lookup_arena_team(server_id, start.team_id1),
            armory.spec_lookup_arena_team(server_id, start.team_id2),
        ) {
            (Some(team1), Some(team2)) => Some(
                StoreOp::InsertRatedArena { instance_meta_id, team_id1: team1.id, team_id2: team2.id },
            ),
            _ => None,
        },
        _ => None,
    }
}

/// Some row is the record of the encounter `instance_meta_id`.
pub open spec fn has_row(rows: Seq<InstanceMeta>, instance_meta_id: u32) -> bool {
    exists|j: int| 0 <= j < rows.len() && (#[trigger] rows[j]).id == instance_meta_id
}

/// The encounter of every running instance is on record.
pub open spec fn coherent(instances: Seq<Entry<UnitInstance>>, rows: Seq<InstanceMeta>) -> bool {
    forall|i: int| 0 <= i < instances.len() ==> has_row(rows, (#[trigger] instances[i]).value.instance_meta_id)
}

impl State {
    /// Server and store are both well formed, and the store has the
    /// encounter of every instance that runs on the server on record.
    pub open spec fn wf(self) -> bool {
        &&& self.server.wf()
        &&& self.store.wf()
        &&& coherent(self.server.active_instances, self.store.instance_meta)
    }

    /// Whether an encounter can be opened for `instance_id`: no instance
    /// runs under that id, and the store takes the record.
    pub open spec fn can_create(self, instance_id: u32, map_id: u32) -> bool {
        &&& !has_key(self.server.active_instances, instance_id as u64)
        &&& self.store.can_create(self.server.server_id, instance_id, map_id)
    }

    /// The state after an encounter was asked for.
    pub open spec fn create_instance_meta(
        self,
        start_ts: u64,
        instance_id: u32,
        map_id: u32,
        map_difficulty: u8,
    ) -> State {
        if self.can_create(instance_id, map_id) {
            State {
                server: ServerState {
                    active_instances: with_entry(
                        self.server.active_instances,
                        instance_id as u64,
                        UnitInstance {
                            instance_meta_id: self.store.next_instance_meta_id,
                            entered: start_ts,
                            map_id,
                            map_difficulty,
                            instance_id,
                        },
                    ),
                    ..self.server
                },
                store: self.store.create_instance_meta(self.server.server_id, start_ts, instance_id, map_id),
            }
        } else {
            self
        }
    }

    /// The state after the first sighting of somebody on a raid map was
    /// looked at: where an encounter can be opened, it is, with its
    /// difficulty on record.
    pub open spec fn open_raid(self, timestamp: u64, position: dto::Position) -> State {
        let difficulty = spec_raid_difficulty(position.map_id, position.map_difficulty);
        if self.can_create(position.instance_id, position.map_id) {
            let opened = self.create_instance_meta(timestamp, position.instance_id, position.map_id, difficulty);
            State { store: opened.store.insert_raid(self.store.next_instance_meta_id, difficulty), ..opened }
        } else {
            self
        }
    }

    /// The state after a character was seen in an encounter.  A character
    /// that is new to the encounter joins its roster, and one whose
    /// snapshot has changed has it brought up to date, each only where
    /// the store takes the write.
    pub open spec fn upsert_participant(self, instance_meta_id: u32, character_id: u32, history_id: Option<u32>) -> State {
        let participants = self.server.instance_participants;
        let at = participant_position(participants, instance_meta_id, character_id, 0);
        let participant = Participant { instance_meta_id, character_id, history_id };
        let store = self.store.record(StoreOp::UpsertParticipant { instance_meta_id, character_id, history_id });
        if !self.store.online {
            self
        } else if at >= participants.len() {
            State {
                server: ServerState { instance_participants: participants.push(participant), ..self.server },
                store,
            }
        } else if participants[at].history_id != history_id {
            State {
                server: ServerState { instance_participants: participants.update(at, participant), ..self.server },
                store,
            }
        } else {
            self
        }
    }

    /// The state after a position report was looked at.
    pub open spec fn track_position(self, armory: Armory, timestamp: u64, position: dto::Position) -> State {
        let opened = if spec_is_raid_map(position.map_id) {
            self.open_raid(timestamp, position)
        } else {
            self
        };
        let seen = State {
            server: ServerState {
                unit_instance_id: with_entry(
                    opened.server.unit_instance_id,
                    position.unit.unit_id,
                    position.instance_id,
                ),
                ..opened.server
            },
            ..opened
        };
        match lookup(seen.server.active_instances, position.instance_id as u64) {
            Some(instance) => match spec_to_unit(
                position.unit,
                armory,
                seen.server.server_id,
                seen.server.summons,
            ) {
                Ok(Unit::Player(player)) => seen.upsert_participant(
                    instance.instance_meta_id,
                    player.character_id,
                    player.history_id,
                ),
                _ => seen,
            },
            None => seen,
        }
    }

    /// The state after the start of a match was looked at: where an
    /// encounter can be opened, it is, and `mode` goes on record for it.
    /// `mode` is `None` where the teams of a rated match are not known.
    pub open spec fn open_match(self, timestamp: u64, instance_id: u32, map_id: u32, mode: Option<StoreOp>) -> State {
        if self.can_create(instance_id, map_id) {
            let opened = self.create_instance_meta(timestamp, instance_id, map_id, 0);
            match mode {
                Some(op) => State { store: opened.store.record(op), ..opened },
                None => opened,
            }
        } else {
            self
        }
    }

    /// The state after the end of a match was looked at.  Where an
    /// instance runs under the id that the message names, its encounter
    /// is closed at `timestamp`, the result of the match goes on record,
    /// and the instance and its roster are dropped.
    pub open spec fn close_match(self, timestamp: u64, message_type: MessageType) -> State {
        match spec_match_end(message_type, 0) {
            Some((instance_id, _)) => match lookup(self.server.active_instances, instance_id as u64) {
                Some(instance) => State {
                    server: ServerState {
                        active_instances: without_key(self.server.active_instances, instance_id as u64),
                        instance_participants: without_participants(
                            self.server.instance_participants,
                            instance.instance_meta_id,
                            self.server.instance_participants.len(),
                        ),
                        ..self.server
                    },
                    store: self.store.finalize_instance_meta(instance.instance_meta_id, timestamp).record(
                        spec_match_end(message_type, instance.instance_meta_id)->Some_0.1,
                    ),
                },
                None => self,
            },
            None => self,
        }
    }

    /// The state after what `message` says of summons, positions and
    /// matches was taken up.
    pub open spec fn extract_meta_information(self, armory: Armory, message: Message) -> State {
        match message.message_type {
            MessageType::Summon(summon) => State {
                server: ServerState {
                    summons: with_entry(self.server.summons, summon.owner.unit_id, summon.unit.unit_id),
                    ..self.server
                },
                ..self
            },
            MessageType::Position(position) => self.track_position(armory, message.timestamp, position),
            MessageType::InstancePvPStartUnratedArena(start) => self.open_match(
                message.timestamp,
                start.instance_id,
                start.map_id,
                spec_match_start(armory, self.server.server_id, message.message_type, self.store.next_instance_meta_id),
            ),
            MessageType::InstancePvPStartRatedArena(start) => self.open_match(
                message.timestamp,
                start.instance_id,
                start.map_id,
                spec_match_start(armory, self.server.server_id, message.message_type, self.store.next_instance_meta_id),
            ),
            MessageType::InstancePvPStartBattleground(start) => self.open_match(
                message.timestamp,
                start.instance_id,
                start.map_id,
                spec_match_start(armory, self.server.server_id, message.message_type, self.store.next_instance_meta_id),
            ),
            MessageType::InstancePvPEndUnratedArena(_) => self.close_match(message.timestamp, message.message_type),
            MessageType::InstancePvPEndRatedArena(_) => self.close_match(message.timestamp, message.message_type),
            MessageType::InstancePvPEndBattleground(_) => self.close_match(message.timestamp, message.message_type),
            _ => self,
        }
    }

    /// The state after the first `n` running instances were looked at for
    /// the reset sweep at `now`; its running instances are those of the
    /// first `n` that stay.  An instance that is due is closed at `now`
    /// and dropped with its roster, provided the store takes the write.
    pub open spec fn sweep(self, now: u64, n: nat) -> State
        decreases n,
    {
        if n == 0 {
            State { server: ServerState { active_instances: Seq::empty(), ..self.server }, ..self }
        } else {
            let before = self.sweep(now, (n - 1) as nat);
            let entry = self.server.active_instances[n - 1];
            if before.store.online && is_due(entry.value, self.server.instance_resets, now) {
                State {
                    server: ServerState {
                        instance_participants: without_participants(
                            before.server.instance_participants,
                            entry.value.instance_meta_id,
                            before.server.instance_participants.len(),
                        ),
                        ..before.server
                    },
                    store: before.store.finalize_instance_meta(entry.value.instance_meta_id, now),
                }
            } else {
                State {
                    server: ServerState {
                        active_instances: before.server.active_instances.push(entry),
                        ..before.server
                    },
                    ..before
                }
            }
        }
    }

    /// The state after the reset sweep at `now`.
    pub open spec fn reset_instances(self, now: u64) -> State {
        self.sweep(now, self.server.active_instances.len())
    }
}

impl Server {
    /// Opens an encounter for the instance `instance_id` and gives its id.
    /// Gives `None`, and changes nothing, where an instance runs under
    /// that id already or the store does not take the record.
    pub fn create_instance_meta(
        &mut self,
        store: &mut Store,
        start_ts: u64,
        instance_id: u32,
        map_id: u32,
        map_difficulty: u8,
    ) -> (r: Option<u32>)
        ensures
            (State { server: final(self)@, store: final(store)@ }) == (State {
                server: old(self)@,
                store: old(store)@,
            }).create_instance_meta(start_ts, instance_id, map_id, map_difficulty),
            r == if (State { server: old(self)@, store: old(store)@ }).can_create(instance_id, map_id) {
                Some(old(store)@.next_instance_meta_id)
            } else {
                None
            },
            (State { server: old(self)@, store: old(store)@ }).wf() ==> (State {
                server: final(self)@,
                store: final(store)@,
            }).wf(),
    {
        proof {
            let state = State { server: self@, store: store@ };
            if state.wf() {
                crate::well_formed::lemma_create_wf(state, start_ts, instance_id, map_id, map_difficulty);
            }
        }
        if self.active_instances.contains_key(instance_id as u64) {
            return None;
        }
        match store.create_instance_meta(self.server_id, start_ts, instance_id, map_id) {
            Some(instance_meta_id) => {
                self.active_instances.insert(
                    instance_id as u64,
                    UnitInstance { instance_meta_id, entered: start_ts, map_id, map_difficulty, instance_id },
                );
                Some(instance_meta_id)
            },
            None => None,
        }
    }

    /// Closes the encounter `instance_meta_id` at `end_ts` in the store.
    /// Gives `false`, and changes nothing, where the store is not online.
    pub fn finalize_instance_meta(&self, store: &mut Store, end_ts: u64, instance_meta_id: u32) -> (done: bool)
        ensures
            done == old(store)@.online,
            final(store)@ == old(store)@.finalize_instance_meta(instance_meta_id, end_ts),
            (State { server: self@, store: old(store)@ }).wf() ==> (State { server: self@, store: final(store)@ }).wf(),
    {
        proof {
            if (State { server: self@, store: store@ }).wf() {
                crate::well_formed::lemma_coherent_stays(
                    self@.active_instances,
                    store@.instance_meta,
                    store@.finalize_instance_meta(instance_meta_id, end_ts).instance_meta,
                );
            }
        }
        store.finalize_instance_meta(instance_meta_id, end_ts)
    }

    fn drop_participants(&mut self, instance_meta_id: u32)
        ensures
            final(self)@ == (ServerState {
                instance_participants: without_participants(
                    old(self)@.instance_participants,
                    instance_meta_id,
                    old(self)@.instance_participants.len(),
                ),
                ..old(self)@
            }),
    {
        let mut kept: Vec<Participant> = Vec::new();
        let mut i: usize = 0;
        while i < self.instance_participants.len()
            invariant
                i <= self.instance_participants.len(),
                *self == *old(self),
                kept@ == without_participants(self.instance_participants@, instance_meta_id, i as nat),
            decreases self.instance_participants.len() - i,
        {
            let p = self.instance_participants[i];
            if p.instance_meta_id != instance_meta_id {
                kept.push(p);
            }
            i += 1;
        }
        self.instance_participants = kept;
    }

    fn upsert_participant(&mut self, store: &mut Store, instance_meta_id: u32, character_id: u32, history_id: Option<u32>)
        ensures
            (State { server: final(self)@, store: final(store)@ }) == (State {
                server: old(self)@,
                store: old(store)@,
            }).upsert_participant(instance_meta_id, character_id, history_id),
    {
        let mut i: usize = 0;
        while i < self.instance_participants.len()
            invariant
                i <= self.instance_participants.len(),
                *self == *old(self),
                *store == *old(store),
                participant_position(self.instance_participants@, instance_meta_id, character_id, 0)
                    == participant_position(self.instance_participants@, instance_meta_id, character_id, i as int),
            decreases self.instance_participants.len() - i,
        {
            let p = self.instance_participants[i];
            if p.instance_meta_id == instance_meta_id && p.character_id == character_id {
                let same = match (p.history_id, history_id) {
                    (Some(a), Some(b)) => a == b,
                    (None, None) => true,
                    _ => false,
                };
                if !same && store.record(StoreOp::UpsertParticipant { instance_meta_id, character_id, history_id }) {
                    self.instance_participants[i] = Participant { instance_meta_id, character_id, history_id };
                }
                return ;
            }
            i += 1;
        }
        if store.record(StoreOp::UpsertParticipant { instance_meta_id, character_id, history_id }) {
            self.instance_participants.push(Participant { instance_meta_id, character_id, history_id });
        }
    }

    fn track_position(&mut self, store: &mut Store, armory: &Armory, timestamp: u64, position: &dto::Position)
        ensures
            (State { server: final(self)@, store: final(store)@ }) == (State {
                server: old(self)@,
                store: old(store)@,
            }).track_position(*armory, timestamp, *position),
    {
        if is_raid_map(position.map_id) {
            let difficulty = raid_difficulty(position.map_id, position.map_difficulty);
            match self.create_instance_meta(store, timestamp, position.instance_id, position.map_id, difficulty) {
                Some(instance_meta_id) => {
                    store.insert_raid(instance_meta_id, difficulty);
                },
                None => {},
            }
        }
        self.unit_instance_id.insert(position.unit.unit_id, position.instance_id);
        let instance_meta_id = match self.active_instances.get(position.instance_id as u64) {
            Some(instance) => instance.instance_meta_id,
            None => {
                return ;
            },
        };
        match position.unit.to_unit(armory, self.server_id, &self.summons) {
            Ok(Unit::Player(player)) => {
                self.upsert_participant(store, instance_meta_id, player.character_id, player.history_id);
            },
            _ => {},
        }
    }

    fn match_start(&self, armory: &Armory, message_type: &MessageType, instance_meta_id: u32) -> (r: Option<StoreOp>)
        ensures
            r == spec_match_start(*armory, self@.server_id, *message_type, instance_meta_id),
    {
        match message_type {
            MessageType::InstancePvPStartUnratedArena(_) => Some(StoreOp::InsertSkirmish { instance_meta_id }),
            MessageType::InstancePvPStartBattleground(_) => Some(StoreOp::InsertBattleground { instance_meta_id }),
            MessageType::InstancePvPStartRatedArena(start) => {
                match armory.lookup_arena_team(self.server_id, start.team_id1) {
                    Some(team1) => match armory.lookup_arena_team(self.server_id, start.team_id2) {
                        Some(team2) => Some(
                            StoreOp::InsertRatedArena { instance_meta_id, team_id1: team1.id, team_id2: team2.id },
                        ),
                        None => None,
                    },
                    None => None,
                }
            },
            _ => None,
        }
    }

    fn open_match(&mut self, store: &mut Store, armory: &Armory, message: &Message, instance_id: u32, map_id: u32)
        requires
            message.message_type is InstancePvPStartUnratedArena || message.message_type is InstancePvPStartRatedArena
                || message.message_type is InstancePvPStartBattleground,
        ensures
            (State { server: final(self)@, store: final(store)@ }) == (State {
                server: old(self)@,
                store: old(store)@,
            }).open_match(
                message.timestamp,
                instance_id,
                map_id,
                spec_match_start(
                    *armory,
                    old(self)@.server_id,
                    message.message_type,
                    old(store)@.next_instance_meta_id,
                ),
            ),
    {
        match self.create_instance_meta(store, message.timestamp, instance_id, map_id, 0) {
            Some(instance_meta_id) => {
                match self.match_start(armory, &message.message_type, instance_meta_id) {
                    Some(op) => {
                        store.record(op);
                    },
                    None => {},
                }
            },
            None => {},
        }
    }

    fn close_match(&mut self, store: &mut Store, message: &Message)
        ensures
            (State { server: final(self)@, store: final(store)@ }) == (State {
                server: old(self)@,
                store: old(store)@,
            }).close_match(message.timestamp, message.message_type),
    {
        let instance_id = match message.message_type {
            MessageType::InstancePvPEndUnratedArena(end) => end.instance_id,
            MessageType::InstancePvPEndRatedArena(end) => end.instance_id,
            MessageType::InstancePvPEndBattleground(end) => end.instance_id,
            _ => {
                return ;
            },
        };
        let instance_meta_id = match self.active_instances.get(instance_id as u64) {
            Some(instance) => instance.instance_meta_id,
            None => {
                return ;
            },
        };
        let result = match message.message_type {
            MessageType::InstancePvPEndUnratedArena(end) => StoreOp::UpdateSkirmishResult {
                instance_meta_id,
                winner: end.winner,
            },
            MessageType::InstancePvPEndRatedArena(end) => StoreOp::UpdateRatedArenaResult {
                instance_meta_id,
                winner: end.winner,
                team_change1: end.team_change1,
                team_change2: end.team_change2,
            },
            MessageType::InstancePvPEndBattleground(end) => StoreOp::UpdateBattlegroundResult {
                instance_meta_id,
                winner: end.winner,
                score_alliance: end.score_alliance,
                score_horde: end.score_horde,
            },
            _ => {
                return ;
            },
        };
        self.finalize_instance_meta(store, message.timestamp, instance_meta_id);
        store.record(result);
        self.drop_participants(instance_meta_id);
        self.active_instances.remove(instance_id as u64);
    }

    /// Takes up what `message` says of summons, positions and matches.
    ///
    /// A summon is put down for its owner.  A position report opens the
    /// encounter of a raid where none runs for the instance yet, notes in
    /// which instance the unit is, and enters the character into the
    /// roster of the encounter.  The start of a match opens its encounter;
    /// the end of a match closes it and drops the instance with its
    /// roster, whether or not the store took the closing.
    pub fn extract_meta_information(&mut self, store: &mut Store, armory: &Armory, message: &Message)
        ensures
            (State { server: final(self)@, store: final(store)@ }) == (State {
                server: old(self)@,
                store: old(store)@,
            }).extract_meta_information(*armory, *message),
            (State { server: old(self)@, store: old(store)@ }).wf() ==> (State {
                server: final(self)@,
                store: final(store)@,
            }).wf(),
    {
        proof {
            let state = State { server: self@, store: store@ };
            if state.wf() {
                crate::well_formed::lemma_extract_wf(state, *armory, *message);
            }
        }
        match message.message_type {
            MessageType::Summon(summon) => {
                self.summons.insert(summon.owner.unit_id, summon.unit.unit_id);
            },
            MessageType::Position(position) => {
                self.track_position(store, armory, message.timestamp, &position);
            },
            MessageType::InstancePvPStartUnratedArena(start) => {
                self.open_match(store, armory, message, start.instance_id, start.map_id);
            },
            MessageType::InstancePvPStartRatedArena(start) => {
                self.open_match(store, armory, message, start.instance_id, start.map_id);
            },
            MessageType::InstancePvPStartBattleground(start) => {
                self.open_match(store, armory, message, start.instance_id, start.map_id);
            },
            MessageType::InstancePvPEndUnratedArena(_) => {
                self.close_match(store, message);
            },
            MessageType::InstancePvPEndRatedArena(_) => {
                self.close_match(store, message);
            },
            MessageType::InstancePvPEndBattleground(_) => {
                self.close_match(store, message);
            },
            _ => {},
        }
    }
    /// The reset sweep.  Every running instance whose map has a reset
    /// time that is not before the entry into the instance and that lies
    /// before `now` is closed at `now` and dropped together with its
    /// roster; while the store is not online nothing is closed and
    /// nothing is dropped.
    ///
    /// Returns the time of the next reset that is due: the earliest reset
    /// time that is not before `now`, and `u64::MAX` where there is none.
    pub fn reset_instances(&mut self, store: &mut Store, now: u64) -> (next: u64)
        ensures
            (State { server: final(self)@, store: final(store)@ }) == (State {
                server: old(self)@,
                store: old(store)@,
            }).reset_instances(now),
            next == next_reset(old(self)@.instance_resets, now, old(self)@.instance_resets.len()),
            (State { server: old(self)@, store: old(store)@ }).wf() ==> (State {
                server: final(self)@,
                store: final(store)@,
            }).wf(),
    {
        let ghost start = State { server: self@, store: store@ };
        proof {
            if start.wf() {
                crate::well_formed::lemma_reset_wf(start, now);
            }
        }
        let ghost mut k: nat = 0;
        let mut j: usize = 0;
        assert(self@.active_instances.take(0) =~= Seq::empty());
        assert(self@.active_instances.skip(0) =~= start.server.active_instances);
        while j < self.active_instances.entries.len()
            invariant
                j <= self@.active_instances.len(),
                k + (self@.active_instances.len() - j) == start.server.active_instances.len(),
                (State {
                    server: ServerState { active_instances: self@.active_instances.take(j as int), ..self@ },
                    store: store@,
                }) == start.sweep(now, k),
                self@.active_instances.skip(j as int) == start.server.active_instances.skip(k as int),
                self@.instance_resets == start.server.instance_resets,
            decreases self@.active_instances.len() - j,
        {
            let ghost before = self@;
            proof {
                lemma_skip_step(before.active_instances, j as int, start.server.active_instances, k as int);
            }
            let instance = self.active_instances.entries[j].value;
            let due = match self.instance_resets.get(instance.map_id as u64) {
                Some(reset) => instance.entered <= reset.reset_time && reset.reset_time < now,
                None => false,
            };
            if due && store.finalize_instance_meta(instance.instance_meta_id, now) {
                self.drop_participants(instance.instance_meta_id);
                self.active_instances.entries.remove(j);
                proof {
                    assert(self@.active_instances.take(j as int) =~= before.active_instances.take(j as int));
                    assert(self@.active_instances.skip(j as int) =~= before.active_instances.skip(j + 1));
                }
            } else {
                j += 1;
                proof {
                    assert(self@.active_instances.take(j as int) =~= before.active_instances.take(j - 1).push(
                        start.server.active_instances[k as int],
                    ));
                }
            }
            proof {
                k = k + 1;
            }
        }
        assert(self@.active_instances.take(j as int) =~= self@.active_instances);
        let mut next: u64 = u64::MAX;
        let mut i: usize = 0;
        while i < self.instance_resets.entries.len()
            invariant
                i <= self@.instance_resets.len(),
                next == next_reset(self@.instance_resets, now, i as nat),
            decreases self@.instance_resets.len() - i,
        {
            let time = self.instance_resets.entries[i].value.reset_time;
            if time >= now && time < next {
                next = time;
            }
            i += 1;
        }
        next
    }
}

/// The reset sweep leaves the reset schedule, the connection of the store
/// and everything of the server but the running instances and the rosters
/// as they were.
pub proof fn lemma_sweep_frame(state: State, now: u64, n: nat)
    requires
        n <= state.server.active_instances.len(),
    ensures
        state.sweep(now, n).store.online == state.store.online,
        state.sweep(now, n).store.next_instance_meta_id == state.store.next_instance_meta_id,
        state.sweep(now, n).store.instance_raid == state.store.instance_raid,
        state.sweep(now, n).store.instance_resets == state.store.instance_resets,
        state.sweep(now, n).server == (ServerState {
            active_instances: state.sweep(now, n).server.active_instances,
            instance_participants: state.sweep(now, n).server.instance_participants,
            ..state.server
        }),
        !state.store.online ==> state.sweep(now, n).store == state.store,
        !state.store.online ==> state.sweep(now, n).server.instance_participants
            == state.server.instance_participants,
    decreases n,
{
    if n > 0 {
        lemma_sweep_frame(state, now, (n - 1) as nat);
    }
}

/// After the reset sweep no running instance is left that the sweep
/// would close.
pub proof fn lemma_sweep_leaves_none_due(state: State, now: u64, n: nat)
    requires
        n <= state.server.active_instances.len(),
    ensures
        forall|i: int|
            0 <= i < state.sweep(now, n).server.active_instances.len() ==> !(state.store.online && is_due(
                (#[trigger] state.sweep(now, n).server.active_instances[i]).value,
                state.server.instance_resets,
                now,
            )),
    decreases n,
{
    if n > 0 {
        lemma_sweep_leaves_none_due(state, now, (n - 1) as nat);
        lemma_sweep_frame(state, now, (n - 1) as nat);
    }
}

/// Where no running instance is due, or the store is not online, the
/// reset sweep changes nothing.
pub proof fn lemma_sweep_without_due(state: State, now: u64, n: nat)
    requires
        n <= state.server.active_instances.len(),
        forall|i: int|
            0 <= i < state.server.active_instances.len() ==> !(state.store.online && is_due(
                (#[trigger] state.server.active_instances[i]).value,
                state.server.instance_resets,
                now,
            )),
    ensures
        state.sweep(now, n) == (State {
            server: ServerState { active_instances: state.server.active_instances.take(n as int), ..state.server },
            ..state
        }),
    decreases n,
{
    if n > 0 {
        lemma_sweep_without_due(state, now, (n - 1) as nat);
        assert(state.server.active_instances.take(n as int) =~= state.server.active_instances.take(n - 1).push(
            state.server.active_instances[n - 1],
        ));
    } else {
        assert(state.server.active_instances.take(0) =~= Seq::empty());
    }
}

/// The reset sweep is idempotent: a second sweep at the same time finds
/// nothing left to do.
pub proof fn lemma_reset_is_idempotent(state: State, now: u64)
    ensures
        state.reset_instances(now).reset_instances(now) == state.reset_instances(now),
        next_reset(
            state.reset_instances(now).server.instance_resets,
            now,
            state.reset_instances(now).server.instance_resets.len(),
        ) == next_reset(state.server.instance_resets, now, state.server.instance_resets.len()),
{
    let n = state.server.active_instances.len();
    let once = state.reset_instances(now);
    lemma_sweep_frame(state, now, n);
    lemma_sweep_leaves_none_due(state, now, n);
    lemma_sweep_without_due(once, now, once.server.active_instances.len());
    assert(once.server.active_instances.take(once.server.active_instances.len() as int)
        =~= once.server.active_instances);
}

/// The end of a match closes its instance.  After the message was taken
/// up no instance runs under the id any more, nobody is on the roster of
/// its encounter, and, where the store is online, every record of the
/// encounter is expired and has an end.
pub proof fn lemma_match_end_closes_instance(state: State, armory: Armory, message: Message)
    requires
        distinct_keys(state.server.active_instances),
        spec_match_end(message.message_type, 0) is Some,
        has_key(state.server.active_instances, spec_match_end(message.message_type, 0)->Some_0.0 as u64),
    ensures
        ({
            let instance_id = spec_match_end(message.message_type, 0)->Some_0.0;
            let instance = lookup(state.server.active_instances, instance_id as u64)->Some_0;
            let after = state.extract_meta_information(armory, message);
            &&& !has_key(after.server.active_instances, instance_id as u64)
            &&& forall|i: int|
                0 <= i < after.server.instance_participants.len() ==> (
                #[trigger] after.server.instance_participants[i]).instance_meta_id != instance.instance_meta_id
            &&& after.store.instance_meta.len() == state.store.instance_meta.len()
            &&& state.store.online ==> forall|i: int|
                0 <= i < after.store.instance_meta.len() && state.store.instance_meta[i].id
                    == instance.instance_meta_id ==> (#[trigger] after.store.instance_meta[i]).expired
                    && after.store.instance_meta[i].end_ts is Some
                    && after.store.instance_meta[i].id == instance.instance_meta_id
        }),
{
    let instance_id = spec_match_end(message.message_type, 0)->Some_0.0;
    let instance = lookup(state.server.active_instances, instance_id as u64)->Some_0;
    crate::table::lemma_without_key(state.server.active_instances, instance_id as u64);
    lemma_without_participants(
        state.server.instance_participants,
        instance.instance_meta_id,
        state.server.instance_participants.len(),
    );
}

/// Nobody of the encounter `instance_meta_id` is left among the
/// participants that stay.
pub proof fn lemma_without_participants(participants: Seq<Participant>, instance_meta_id: u32, n: nat)
    requires
        n <= participants.len(),
    ensures
        forall|i: int|
            0 <= i < without_participants(participants, instance_meta_id, n).len() ==> (
            #[trigger] without_participants(participants, instance_meta_id, n)[i]).instance_meta_id
                != instance_meta_id,
    decreases n,
{
    if n > 0 {
        lemma_without_participants(participants, instance_meta_id, (n - 1) as nat);
    }
}

} // verus!
