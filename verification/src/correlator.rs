//! The event correlator.
//!
//! Messages wait in one buffer per subject.  Each message that arrives is
//! held against every buffer: it may show that the first message of a
//! buffer is ready to become an event, that it never will, or that the
//! buffer has to wait for more.  Events that come out are numbered and
//! appended to the log of the encounter in which their subject is.
use vstd::prelude::*;
use crate::armory::Armory;
use crate::cross_reference::{
    events_view,
    spec_try_parse_dispel,
    spec_try_parse_interrupt,
    spec_try_parse_spell_steal,
    try_parse_dispel,
    try_parse_interrupt,
    try_parse_spell_steal,
};
use crate::domain_value::{
    AuraApplication,
    Event,
    EventParseFailureAction,
    EventType,
    EventTypeView,
    EventView,
    Position,
    Power,
    PowerType,
    Unit,
};
use crate::dto::{LiveDataProcessorFailure, Message, MessageType};
use crate::lifecycle::{next_reset, State};
use crate::map_unit::{spec_to_unit, spec_to_unit_opt, to_unit_opt};
use crate::material::{buffers_view, lemma_same_keys, logs_view, Server, ServerState};
use crate::spell::{spec_try_parse_spell_cast, try_parse_spell_cast};
use crate::store::{Store, StoreOp};
use crate::table::{
    distinct_keys,
    has_key,
    index_of,
    lemma_index_of,
    lemma_skip_step,
    lookup,
    with_entry,
    Entry,
};

verus! {

/// For how many milliseconds a buffer may wait for its first message to
/// be decided.
pub const PENDING_LIFETIME: u64 = 10_000;

/// An event without an id, or the disposition `DiscardFirst` where the
/// subject did not resolve.
pub open spec fn spec_single(
    subject: Result<Unit, LiveDataProcessorFailure>,
    timestamp: u64,
    event: EventTypeView,
) -> Result<EventView, EventParseFailureAction> {
    match subject {
        Ok(unit) => Ok(EventView { id: 0, timestamp, subject: unit, event }),
        Err(_) => Err(EventParseFailureAction::DiscardFirst),
    }
}

/// Whether a buffer has waited too long at `now`: its first message is
/// more than the lifetime of a buffer old.  A buffer without messages has
/// nothing to wait for.
pub open spec fn is_stale(buffer: Seq<Message>, now: u64) -> bool {
    buffer.len() == 0 || now - buffer[0].timestamp > PENDING_LIFETIME
}

/// Those of the first `n` buffers that have not waited too long at `now`,
/// in their order.
pub open spec fn fresh_buffers(pending: Seq<Entry<Seq<Message>>>, now: u64, n: nat) -> Seq<Entry<Seq<Message>>>
    decreases n,
{
    if n == 0 {
        Seq::empty()
    } else if is_stale(pending[n - 1].value, now) {
        fresh_buffers(pending, now, (n - 1) as nat)
    } else {
        fresh_buffers(pending, now, (n - 1) as nat).push(pending[n - 1])
    }
}

/// What is left of a buffer once its first message is gone: the buffer
/// with the messages behind the first, or nothing where there are none.
pub open spec fn rest_of(buffer: Entry<Seq<Message>>) -> Seq<Entry<Seq<Message>>> {
    if buffer.value.len() > 1 {
        seq![Entry { key: buffer.key, value: buffer.value.drop_first() }]
    } else {
        Seq::empty()
    }
}

impl ServerState {
    /// The encounter in which the unit `subject_id` is: that of the
    /// running instance in which it was last seen.
    pub open spec fn encounter_of(self, subject_id: u64) -> Option<u32> {
        match lookup(self.unit_instance_id, subject_id) {
            Some(instance_id) => match lookup(self.active_instances, instance_id as u64) {
                Some(instance) => Some(instance.instance_meta_id),
                None => None,
            },
            None => None,
        }
    }

    /// The events committed so far in the encounter `instance_meta_id`.
    pub open spec fn log_of(self, instance_meta_id: u32) -> Seq<EventView> {
        match lookup(self.committed_events, instance_meta_id as u64) {
            Some(log) => log,
            None => Seq::empty(),
        }
    }

    /// What the first message of `buffer` becomes now that `next` has
    /// arrived: an event that has no id yet, or the disposition of the
    /// buffer.
    #[verifier::opaque]
    pub open spec fn commit_event(self, armory: Armory, buffer: Seq<Message>, next: Message) -> Result<
        EventView,
        EventParseFailureAction,
    > {
        if buffer.len() == 0 {
            Err(EventParseFailureAction::DiscardAll)
        } else {
            let timestamp = buffer[0].timestamp;
            match buffer[0].message_type {
                MessageType::CombatState(m) => spec_single(
                    spec_to_unit(m.unit, armory, self.server_id, self.summons),
                    timestamp,
                    EventTypeView::CombatState { in_combat: m.in_combat },
                ),
                MessageType::Loot(m) => spec_single(
                    spec_to_unit(m.unit, armory, self.server_id, self.summons),
                    timestamp,
                    EventTypeView::Loot { item_id: m.item_id },
                ),
                MessageType::Position(m) => spec_single(
                    spec_to_unit(m.unit, armory, self.server_id, self.summons),
                    timestamp,
                    EventTypeView::Position(Position { x: m.x, y: m.y, z: m.z, orientation: m.orientation }),
                ),
                MessageType::Power(m) => match PowerType::spec_from_u8(m.power_type) {
                    Some(power_type) => spec_single(
                        spec_to_unit(m.unit, armory, self.server_id, self.summons),
                        timestamp,
                        EventTypeView::Power(
                            Power { power_type, max_power: m.max_power, current_power: m.current_power },
                        ),
                    ),
                    None => Err(EventParseFailureAction::DiscardFirst),
                },
                MessageType::AuraApplication(m) => match spec_to_unit(
                    m.caster,
                    armory,
                    self.server_id,
                    self.summons,
                ) {
                    Ok(caster) => spec_single(
                        spec_to_unit(m.target, armory, self.server_id, self.summons),
                        timestamp,
                        EventTypeView::AuraApplication(
                            AuraApplication { caster, stack_amount: m.stack_amount, spell_id: m.spell_id },
                        ),
                    ),
                    Err(_) => Err(EventParseFailureAction::DiscardFirst),
                },
                MessageType::Death(m) => spec_single(
                    spec_to_unit(m.victim, armory, self.server_id, self.summons),
                    timestamp,
                    EventTypeView::Death { murder: spec_to_unit_opt(m.cause, armory, self.server_id, self.summons) },
                ),
                MessageType::Event(m) => match spec_to_unit(m.unit, armory, self.server_id, self.summons) {
                    Ok(Unit::Creature(creature)) => if m.event_type == 0 {
                        Ok(
                            EventView {
                                id: 0,
                                timestamp,
                                subject: Unit::Creature(creature),
                                event: EventTypeView::ThreatWipe,
                            },
                        )
                    } else {
                        Err(EventParseFailureAction::DiscardFirst)
                    },
                    _ => Err(EventParseFailureAction::DiscardFirst),
                },
                MessageType::Summon(m) => match spec_to_unit(m.unit, armory, self.server_id, self.summons) {
                    Ok(summoned) => spec_single(
                        spec_to_unit(m.owner, armory, self.server_id, self.summons),
                        timestamp,
                        EventTypeView::Summon { summoned },
                    ),
                    Err(_) => Err(EventParseFailureAction::DiscardFirst),
                },
                MessageType::Interrupt(m) => match self.encounter_of(m.target.unit_id) {
                    Some(encounter) => match spec_to_unit(m.target, armory, self.server_id, self.summons) {
                        Ok(subject) => match spec_try_parse_interrupt(
                            m,
                            self.log_of(encounter),
                            timestamp,
                            next.timestamp,
                            subject,
                        ) {
                            Ok((cause_event_id, interrupted_spell_id)) => Ok(
                                EventView {
                                    id: 0,
                                    timestamp,
                                    subject,
                                    event: EventTypeView::Interrupt { cause_event_id, interrupted_spell_id },
                                },
                            ),
                            Err(action) => Err(action),
                        },
                        Err(_) => Err(EventParseFailureAction::DiscardFirst),
                    },
                    None => Err(EventParseFailureAction::Wait),
                },
                MessageType::Dispel(m) => match self.encounter_of(m.aura_caster.unit_id) {
                    Some(encounter) => match spec_to_unit(m.aura_caster, armory, self.server_id, self.summons) {
                        Ok(subject) => match spec_try_parse_dispel(
                            m,
                            self.log_of(encounter),
                            timestamp,
                            next.timestamp,
                            armory,
                            self.server_id,
                            self.summons,
                        ) {
                            Ok((cause_event_id, target_event_ids)) => Ok(
                                EventView {
                                    id: 0,
                                    timestamp,
                                    subject,
                                    event: EventTypeView::Dispel { cause_event_id, target_event_ids },
                                },
                            ),
                            Err(action) => Err(action),
                        },
                        Err(_) => Err(EventParseFailureAction::DiscardFirst),
                    },
                    None => Err(EventParseFailureAction::Wait),
                },
                MessageType::SpellSteal(m) => match self.encounter_of(m.aura_caster.unit_id) {
                    Some(encounter) => match spec_to_unit(m.aura_caster, armory, self.server_id, self.summons) {
                        Ok(subject) => match spec_try_parse_spell_steal(
                            m,
                            self.log_of(encounter),
                            timestamp,
                            next.timestamp,
                            armory,
                            self.server_id,
                            self.summons,
                        ) {
                            Ok((cause_event_id, target_event_id)) => Ok(
                                EventView {
                                    id: 0,
                                    timestamp,
                                    subject,
                                    event: EventTypeView::SpellSteal { cause_event_id, target_event_id },
                                },
                            ),
                            Err(action) => Err(action),
                        },
                        Err(_) => Err(EventParseFailureAction::DiscardFirst),
                    },
                    None => Err(EventParseFailureAction::Wait),
                },
                other => if other.spec_is_spell_family() {
                    match other.spec_extract_subject() {
                        Some(caster) => match spec_to_unit(caster, armory, self.server_id, self.summons) {
                            Ok(subject) => match spec_try_parse_spell_cast(
                                buffer,
                                next,
                                armory,
                                self.server_id,
                                self.summons,
                            ) {
                                Ok(spell) => Ok(
                                    EventView { id: 0, timestamp, subject, event: EventTypeView::SpellCast(spell) },
                                ),
                                Err(action) => Err(action),
                            },
                            Err(_) => Err(EventParseFailureAction::DiscardAll),
                        },
                        None => Err(EventParseFailureAction::DiscardFirst),
                    }
                } else {
                    Err(EventParseFailureAction::DiscardFirst)
                },
            }
        }
    }

    /// The server after `message` joined the buffer of its subject, at
    /// the end; a message without a subject joins none.
    pub open spec fn push_non_committed_event(self, message: Message) -> ServerState {
        match message.spec_subject_id() {
            Some(subject_id) => ServerState {
                non_committed_events: with_entry(
                    self.non_committed_events,
                    subject_id,
                    match lookup(self.non_committed_events, subject_id) {
                        Some(buffer) => buffer.push(message),
                        None => seq![message],
                    },
                ),
                ..self
            },
            None => self,
        }
    }

    /// The server after the buffers that have waited too long at `now`
    /// were evicted.
    pub open spec fn cleanup(self, now: u64) -> ServerState {
        ServerState {
            non_committed_events: fresh_buffers(self.non_committed_events, now, self.non_committed_events.len()),
            ..self
        }
    }
}

impl State {
    /// The state after `event`, whose subject is the unit `subject_id`,
    /// was committed.  The event goes to the end of the log of the
    /// encounter in which the subject is, under the next id of that log,
    /// and the store is told.  Nothing changes where the subject is in no
    /// encounter, where the store is not online, and where the ids of
    /// the log are used up.
    pub open spec fn emit(self, subject_id: u64, event: EventView) -> State {
        match self.server.encounter_of(subject_id) {
            Some(encounter) => {
                let log = self.server.log_of(encounter);
                if log.len() >= u32::MAX || !self.store.online {
                    self
                } else {
                    let id = (log.len() + 1) as u32;
                    State {
                        server: ServerState {
                            committed_events: with_entry(
                                self.server.committed_events,
                                encounter as u64,
                                log.push(event.with_id(id)),
                            ),
                            ..self.server
                        },
                        store: self.store.record(StoreOp::InsertEvent { instance_meta_id: encounter, event_id: id }),
                    }
                }
            },
            None => self,
        }
    }

    /// This state with `buffers` behind its pending buffers.
    pub open spec fn keep(self, buffers: Seq<Entry<Seq<Message>>>) -> State {
        State {
            server: ServerState {
                non_committed_events: self.server.non_committed_events + buffers,
                ..self.server
            },
            ..self
        }
    }

    /// The state after `buffer` was held against `next`.  An event that
    /// comes out is committed; a spell takes the whole buffer with it,
    /// any other event the first message only.  Without an event the
    /// buffer is dropped, loses its first message, or stays as it is.
    /// What stays of the buffer goes behind the pending buffers.
    pub open spec fn decide(self, armory: Armory, buffer: Entry<Seq<Message>>, next: Message) -> State {
        match self.server.commit_event(armory, buffer.value, next) {
            Ok(event) => if event.event is SpellCast {
                self.emit(buffer.key, event)
            } else {
                self.emit(buffer.key, event).keep(rest_of(buffer))
            },
            Err(EventParseFailureAction::DiscardAll) => self,
            Err(EventParseFailureAction::DiscardFirst) => self.keep(rest_of(buffer)),
            Err(EventParseFailureAction::Wait) => self.keep(seq![buffer]),
        }
    }

    /// The state after the first `n` pending buffers were held against
    /// `next`, oldest buffer first; its pending buffers are what stays of
    /// those `n`.
    pub open spec fn pass(self, armory: Armory, next: Message, n: nat) -> State
        decreases n,
    {
        if n == 0 {
            State { server: ServerState { non_committed_events: Seq::empty(), ..self.server }, ..self }
        } else {
            self.pass(armory, next, (n - 1) as nat).decide(armory, self.server.non_committed_events[n - 1], next)
        }
    }

    /// The state after every pending buffer was held against `next`.
    pub open spec fn test_for_committable_events(self, armory: Armory, next: Message) -> State {
        self.pass(armory, next, self.server.non_committed_events.len())
    }
}

/// A key is found in the model of the buffers where it is found in the
/// buffers, and under it the model of the buffer.
pub proof fn lemma_buffers_lookup(s: Seq<Entry<Vec<Message>>>, key: u64)
    ensures
        has_key(buffers_view(s), key) == has_key(s, key),
        has_key(s, key) ==> index_of(buffers_view(s), key) == index_of(s, key),
        distinct_keys(buffers_view(s)) == distinct_keys(s),
        lookup(buffers_view(s), key) == match lookup(s, key) {
            Some(buffer) => Some(buffer@),
            None => None,
        },
{
    lemma_same_keys(s, buffers_view(s), key);
    if has_key(s, key) {
        lemma_index_of(s, key);
    }
}

/// A key is found in the model of the logs where it is found in the logs,
/// and under it the model of the log.
pub proof fn lemma_logs_lookup(s: Seq<Entry<Vec<Event>>>, key: u64)
    ensures
        has_key(logs_view(s), key) == has_key(s, key),
        has_key(s, key) ==> index_of(logs_view(s), key) == index_of(s, key),
        distinct_keys(logs_view(s)) == distinct_keys(s),
        lookup(logs_view(s), key) == match lookup(s, key) {
            Some(log) => Some(events_view(log@)),
            None => None,
        },
{
    lemma_same_keys(s, logs_view(s), key);
    if has_key(s, key) {
        lemma_index_of(s, key);
    }
}

/// What becomes of a buffer does not depend on the other buffers.
pub proof fn lemma_commit_ignores_pending(
    server: ServerState,
    pending: Seq<Entry<Seq<Message>>>,
    armory: Armory,
    buffer: Seq<Message>,
    next: Message,
)
    ensures
        (ServerState { non_committed_events: pending, ..server }).commit_event(armory, buffer, next)
            == server.commit_event(armory, buffer, next),
{
    reveal(ServerState::commit_event);
}

fn single(subject: Result<Unit, LiveDataProcessorFailure>, timestamp: u64, event: EventType) -> (r: Result<
    Event,
    EventParseFailureAction,
>)
    ensures
        match r {
            Ok(e) => spec_single(subject, timestamp, event@) == Ok::<EventView, EventParseFailureAction>(e@),
            Err(action) => spec_single(subject, timestamp, event@) == Err::<EventView, EventParseFailureAction>(
                action,
            ),
        },
{
    match subject {
        Ok(unit) => Ok(Event::new(timestamp, unit, event)),
        Err(_) => Err(EventParseFailureAction::DiscardFirst),
    }
}

impl Server {
    fn encounter_of(&self, subject_id: u64) -> (r: Option<u32>)
        ensures
            r == self@.encounter_of(subject_id),
    {
        match self.unit_instance_id.get(subject_id) {
            Some(instance_id) => match self.active_instances.get(*instance_id as u64) {
                Some(instance) => Some(instance.instance_meta_id),
                None => None,
            },
            None => None,
        }
    }

    /// Decides what the first message of `non_committed_event` becomes
    /// now that `next_message` has arrived.
    ///
    /// A message that stands for itself becomes its event, or is dropped
    /// (`DiscardFirst`) where one of its units does not resolve.  A
    /// message of a spell becomes the whole spell once `next_message`
    /// closes it and waits until then; a caster that does not resolve
    /// takes the buffer with it (`DiscardAll`).  An interrupt, a dispel
    /// and a spell steal wait while their subject is in no encounter, and
    /// else become an event as soon as the log of the encounter holds
    /// what they refer to.  The event has no id yet.
    pub fn commit_event(&self, armory: &Armory, non_committed_event: &Vec<Message>, next_message: &Message) -> (r:
        Result<Event, EventParseFailureAction>)
        ensures
            match r {
                Ok(event) => self@.commit_event(*armory, non_committed_event@, *next_message) == Ok::<
                    EventView,
                    EventParseFailureAction,
                >(event@),
                Err(action) => self@.commit_event(*armory, non_committed_event@, *next_message) == Err::<
                    EventView,
                    EventParseFailureAction,
                >(action),
            },
    {
        reveal(ServerState::commit_event);
        if non_committed_event.len() == 0 {
            return Err(EventParseFailureAction::DiscardAll);
        }
        let first_message = non_committed_event[0];
        let timestamp = first_message.timestamp;
        match first_message.message_type {
            MessageType::CombatState(m) => single(
                m.unit.to_unit(armory, self.server_id, &self.summons),
                timestamp,
                EventType::CombatState { in_combat: m.in_combat },
            ),
            MessageType::Loot(m) => single(
                m.unit.to_unit(armory, self.server_id, &self.summons),
                timestamp,
                EventType::Loot { item_id: m.item_id },
            ),
            MessageType::Position(m) => single(
                m.unit.to_unit(armory, self.server_id, &self.summons),
                timestamp,
                EventType::Position(Position { x: m.x, y: m.y, z: m.z, orientation: m.orientation }),
            ),
            MessageType::Power(m) => match PowerType::from_u8(m.power_type) {
                Some(power_type) => single(
                    m.unit.to_unit(armory, self.server_id, &self.summons),
                    timestamp,
                    EventType::Power(Power { power_type, max_power: m.max_power, current_power: m.current_power }),
                ),
                None => Err(EventParseFailureAction::DiscardFirst),
            },
            MessageType::AuraApplication(m) => match m.caster.to_unit(armory, self.server_id, &self.summons) {
                Ok(caster) => single(
                    m.target.to_unit(armory, self.server_id, &self.summons),
                    timestamp,
                    EventType::AuraApplication(
                        AuraApplication { caster, stack_amount: m.stack_amount, spell_id: m.spell_id },
                    ),
                ),
                Err(_) => Err(EventParseFailureAction::DiscardFirst),
            },
            MessageType::Death(m) => single(
                m.victim.to_unit(armory, self.server_id, &self.summons),
                timestamp,
                EventType::Death { murder: to_unit_opt(m.cause, armory, self.server_id, &self.summons) },
            ),
            MessageType::Event(m) => match m.unit.to_unit(armory, self.server_id, &self.summons) {
                Ok(Unit::Creature(creature)) => if m.event_type == 0 {
                    Ok(Event::new(timestamp, Unit::Creature(creature), EventType::ThreatWipe))
                } else {
                    Err(EventParseFailureAction::DiscardFirst)
                },
                _ => Err(EventParseFailureAction::DiscardFirst),
            },
            MessageType::Summon(m) => match m.unit.to_unit(armory, self.server_id, &self.summons) {
                Ok(summoned) => single(
                    m.owner.to_unit(armory, self.server_id, &self.summons),
                    timestamp,
                    EventType::Summon { summoned },
                ),
                Err(_) => Err(EventParseFailureAction::DiscardFirst),
            },
            MessageType::Interrupt(m) => {
                let encounter = match self.encounter_of(m.target.unit_id) {
                    Some(encounter) => encounter,
                    None => {
                        return Err(EventParseFailureAction::Wait);
                    },
                };
                let subject = match m.target.to_unit(armory, self.server_id, &self.summons) {
                    Ok(subject) => subject,
                    Err(_) => {
                        return Err(EventParseFailureAction::DiscardFirst);
                    },
                };
                let empty: Vec<Event> = Vec::new();
                let log = match self.committed_events.get(encounter as u64) {
                    Some(log) => log,
                    None => &empty,
                };
                proof {
                    lemma_logs_lookup(self.committed_events@, encounter as u64);
                    assert(events_view(empty@) =~= Seq::<EventView>::empty());
                }
                match try_parse_interrupt(&m, log, timestamp, next_message.timestamp, &subject) {
                    Ok((cause_event_id, interrupted_spell_id)) => Ok(
                        Event::new(timestamp, subject, EventType::Interrupt { cause_event_id, interrupted_spell_id }),
                    ),
                    Err(action) => Err(action),
                }
            },
            MessageType::Dispel(m) => {
                let encounter = match self.encounter_of(m.aura_caster.unit_id) {
                    Some(encounter) => encounter,
                    None => {
                        return Err(EventParseFailureAction::Wait);
                    },
                };
                let subject = match m.aura_caster.to_unit(armory, self.server_id, &self.summons) {
                    Ok(subject) => subject,
                    Err(_) => {
                        return Err(EventParseFailureAction::DiscardFirst);
                    },
                };
                let empty: Vec<Event> = Vec::new();
                let log = match self.committed_events.get(encounter as u64) {
                    Some(log) => log,
                    None => &empty,
                };
                proof {
                    lemma_logs_lookup(self.committed_events@, encounter as u64);
                    assert(events_view(empty@) =~= Seq::<EventView>::empty());
                }
                match try_parse_dispel(
                    &m,
                    log,
                    timestamp,
                    next_message.timestamp,
                    armory,
                    self.server_id,
                    &self.summons,
                ) {
                    Ok((cause_event_id, target_event_ids)) => Ok(
                        Event::new(timestamp, subject, EventType::Dispel { cause_event_id, target_event_ids }),
                    ),
                    Err(action) => Err(action),
                }
            },
            MessageType::SpellSteal(m) => {
                let encounter = match self.encounter_of(m.aura_caster.unit_id) {
                    Some(encounter) => encounter,
                    None => {
                        return Err(EventParseFailureAction::Wait);
                    },
                };
                let subject = match m.aura_caster.to_unit(armory, self.server_id, &self.summons) {
                    Ok(subject) => subject,
                    Err(_) => {
                        return Err(EventParseFailureAction::DiscardFirst);
                    },
                };
                let empty: Vec<Event> = Vec::new();
                let log = match self.committed_events.get(encounter as u64) {
                    Some(log) => log,
                    None => &empty,
                };
                proof {
                    lemma_logs_lookup(self.committed_events@, encounter as u64);
                    assert(events_view(empty@) =~= Seq::<EventView>::empty());
                }
                match try_parse_spell_steal(
                    &m,
                    log,
                    timestamp,
                    next_message.timestamp,
                    armory,
                    self.server_id,
                    &self.summons,
                ) {
                    Ok((cause_event_id, target_event_id)) => Ok(
                        Event::new(timestamp, subject, EventType::SpellSteal { cause_event_id, target_event_id }),
                    ),
                    Err(action) => Err(action),
                }
            },
            other => {
                if !other.is_spell_family() {
                    return Err(EventParseFailureAction::DiscardFirst);
                }
                let caster = match other.extract_subject() {
                    Some(caster) => caster,
                    None => {
                        return Err(EventParseFailureAction::DiscardFirst);
                    },
                };
                let subject = match caster.to_unit(armory, self.server_id, &self.summons) {
                    Ok(subject) => subject,
                    Err(_) => {
                        return Err(EventParseFailureAction::DiscardAll);
                    },
                };
                match try_parse_spell_cast(armory, self.server_id, &self.summons, non_committed_event, next_message) {
                    Ok(spell) => Ok(Event::new(timestamp, subject, EventType::SpellCast(spell))),
                    Err(action) => Err(action),
                }
            },
        }
    }
}

impl Server {
    /// Commits `event` for the unit `subject_id`: appends it to the log
    /// of the encounter in which that unit is, under the next id of the
    /// log, and tells the store.  The event is dropped where the unit is
    /// in no encounter, where the store is not online, and where the ids
    /// of the log are used up.
    fn emit(&mut self, store: &mut Store, subject_id: u64, event: Event)
        ensures
            (State { server: final(self)@, store: final(store)@ }) == (State {
                server: old(self)@,
                store: old(store)@,
            }).emit(subject_id, event@),
            final(self).non_committed_events == old(self).non_committed_events,
    {
        let encounter = match self.encounter_of(subject_id) {
            Some(encounter) => encounter,
            None => {
                return ;
            },
        };
        let ghost logs = self.committed_events@;
        let ghost before = self@;
        proof {
            lemma_logs_lookup(logs, encounter as u64);
        }
        let mut event = event;
        match self.committed_events.position(encounter as u64) {
            Some(i) => {
                let n = self.committed_events.entries[i].value.len();
                if n >= u32::MAX as usize {
                    return ;
                }
                let id = (n + 1) as u32;
                if !store.record(StoreOp::InsertEvent { instance_meta_id: encounter, event_id: id }) {
                    return ;
                }
                event.id = id;
                self.committed_events.entries[i].value.push(event);
                proof {
                    let after = logs_view(self.committed_events@);
                    let wanted = with_entry(
                        before.committed_events,
                        encounter as u64,
                        before.log_of(encounter).push(event@),
                    );
                    assert(after.len() == wanted.len());
                    assert forall|l: int| 0 <= l < after.len() implies after[l] == wanted[l] by {
                        if l == i {
                            assert(after[l].value =~= wanted[l].value);
                        }
                    }
                    assert(after =~= wanted);
                }
            },
            None => {
                if !store.record(StoreOp::InsertEvent { instance_meta_id: encounter, event_id: 1 }) {
                    return ;
                }
                event.id = 1;
                let mut log: Vec<Event> = Vec::new();
                log.push(event);
                self.committed_events.entries.push(Entry { key: encounter as u64, value: log });
                proof {
                    let after = logs_view(self.committed_events@);
                    let wanted = with_entry(
                        before.committed_events,
                        encounter as u64,
                        before.log_of(encounter).push(event@),
                    );
                    assert(after.len() == wanted.len());
                    assert forall|l: int| 0 <= l < after.len() implies after[l] == wanted[l] by {
                        if l == after.len() - 1 {
                            assert(after[l].value =~= wanted[l].value);
                        }
                    }
                    assert(after =~= wanted);
                }
            },
        }
    }

    /// Drops the buffer at position `at`.
    fn drop_buffer(&mut self, at: usize)
        requires
            at < old(self)@.non_committed_events.len(),
        ensures
            final(self)@ == (ServerState {
                non_committed_events: old(self)@.non_committed_events.remove(at as int),
                ..old(self)@
            }),
    {
        self.non_committed_events.entries.remove(at);
        assert(buffers_view(self.non_committed_events@) =~= buffers_view(old(self).non_committed_events@).remove(
            at as int,
        ));
    }

    /// Takes the first message off the buffer at position `at`, and the
    /// buffer with it where it held no other.  Gives `true` where the
    /// buffer is still there.
    fn pop_head(&mut self, at: usize) -> (stays: bool)
        requires
            at < old(self)@.non_committed_events.len(),
        ensures
            stays == (old(self)@.non_committed_events[at as int].value.len() > 1),
            final(self)@ == (ServerState {
                non_committed_events: old(self)@.non_committed_events.take(at as int) + rest_of(
                    old(self)@.non_committed_events[at as int],
                ) + old(self)@.non_committed_events.skip(at + 1),
                ..old(self)@
            }),
    {
        let ghost before = self@.non_committed_events;
        if self.non_committed_events.entries[at].value.len() > 1 {
            self.non_committed_events.entries[at].value.remove(0);
            proof {
                let after = buffers_view(self.non_committed_events@);
                let wanted = before.take(at as int) + rest_of(before[at as int]) + before.skip(at + 1);
                assert(after.len() == wanted.len());
                assert forall|l: int| 0 <= l < after.len() implies after[l] == wanted[l] by {
                    if l == at {
                        assert(after[l].value =~= before[at as int].value.drop_first());
                    }
                }
                assert(after =~= wanted);
            }
            true
        } else {
            self.drop_buffer(at);
            proof {
                let after = self@.non_committed_events;
                let wanted = before.take(at as int) + rest_of(before[at as int]) + before.skip(at + 1);
                assert(after =~= wanted);
            }
            false
        }
    }

    /// Holds the buffer at position `at` against `next_message` and
    /// commits the event that comes out.  Gives `true` where the buffer,
    /// or what is left of it, still stands at `at`.
    fn decide_at(&mut self, store: &mut Store, armory: &Armory, next_message: &Message, at: usize) -> (stays: bool)
        requires
            at < old(self)@.non_committed_events.len(),
        ensures
            final(self)@.non_committed_events.len() == old(self)@.non_committed_events.len() - if stays {
                0int
            } else {
                1int
            },
            (State {
                server: ServerState {
                    non_committed_events: final(self)@.non_committed_events.take(
                        if stays {
                            at + 1
                        } else {
                            at as int
                        },
                    ),
                    ..final(self)@
                },
                store: final(store)@,
            }) == (State {
                server: ServerState {
                    non_committed_events: old(self)@.non_committed_events.take(at as int),
                    ..old(self)@
                },
                store: old(store)@,
            }).decide(*armory, old(self)@.non_committed_events[at as int], *next_message),
            final(self)@.non_committed_events.skip(
                if stays {
                    at + 1
                } else {
                    at as int
                },
            ) == old(self)@.non_committed_events.skip(at + 1),
    {
        let ghost before = self@;
        let ghost kept = before.non_committed_events.take(at as int);
        let ghost buffer = before.non_committed_events[at as int];
        let ghost passed = State { server: ServerState { non_committed_events: kept, ..before }, store: store@ };
        proof {
            lemma_commit_ignores_pending(before, kept, *armory, buffer.value, *next_message);
        }
        let subject_id = self.non_committed_events.entries[at].key;
        let outcome = self.commit_event(armory, &self.non_committed_events.entries[at].value, next_message);
        match outcome {
            Ok(event) => {
                let is_spell = match &event.event {
                    EventType::SpellCast(_) => true,
                    _ => false,
                };
                let ghost event_view = event@;
                self.emit(store, subject_id, event);
                let ghost emitted = self@;
                assert(emitted.non_committed_events == before.non_committed_events);
                assert((State { server: ServerState { non_committed_events: kept, ..emitted }, store: store@ })
                    == passed.emit(subject_id, event_view));
                if is_spell {
                    self.drop_buffer(at);
                    proof {
                        assert(self@.non_committed_events.take(at as int) =~= kept);
                        assert(self@.non_committed_events.skip(at as int) =~= before.non_committed_events.skip(
                            at + 1,
                        ));
                    }
                    false
                } else {
                    let stays = self.pop_head(at);
                    proof {
                        let upto = if stays {
                            at + 1
                        } else {
                            at as int
                        };
                        assert(self@.non_committed_events.take(upto) =~= kept + rest_of(buffer));
                        assert(self@.non_committed_events.skip(upto) =~= before.non_committed_events.skip(at + 1));
                    }
                    stays
                }
            },
            Err(EventParseFailureAction::DiscardAll) => {
                self.drop_buffer(at);
                proof {
                    assert(self@.non_committed_events.take(at as int) =~= kept);
                    assert(self@.non_committed_events.skip(at as int) =~= before.non_committed_events.skip(at + 1));
                }
                false
            },
            Err(EventParseFailureAction::DiscardFirst) => {
                let stays = self.pop_head(at);
                proof {
                    let upto = if stays {
                        at + 1
                    } else {
                        at as int
                    };
                    assert(self@.non_committed_events.take(upto) =~= kept + rest_of(buffer));
                    assert(self@.non_committed_events.skip(upto) =~= before.non_committed_events.skip(at + 1));
                }
                stays
            },
            Err(EventParseFailureAction::Wait) => {
                proof {
                    assert(self@.non_committed_events.take(at + 1) =~= kept + seq![buffer]);
                }
                true
            },
        }
    }

    /// Holds every pending buffer against `next_message`, oldest buffer
    /// first, and commits the events that come out.
    ///
    /// A spell that comes out takes its whole buffer with it, any other
    /// event the first message of its buffer.  A buffer that gives no
    /// event is dropped (`DiscardAll`), loses its first message
    /// (`DiscardFirst`) or stays as it is (`Wait`).  An event is
    /// committed only where its subject is in a running encounter, and
    /// then gets the next id of that encounter.
    pub fn test_for_committable_events(&mut self, store: &mut Store, armory: &Armory, next_message: &Message)
        ensures
            (State { server: final(self)@, store: final(store)@ }) == (State {
                server: old(self)@,
                store: old(store)@,
            }).test_for_committable_events(*armory, *next_message),
            (State { server: old(self)@, store: old(store)@ }).wf() ==> (State {
                server: final(self)@,
                store: final(store)@,
            }).wf(),
    {
        let ghost start = State { server: self@, store: store@ };
        proof {
            if start.wf() {
                crate::well_formed::lemma_pass_wf(
                    start,
                    *armory,
                    *next_message,
                    start.server.non_committed_events.len(),
                );
            }
        }
        let ghost mut k: nat = 0;
        let mut j: usize = 0;
        assert(self@.non_committed_events.take(0) =~= Seq::empty());
        assert(self@.non_committed_events.skip(0) =~= start.server.non_committed_events);
        while j < self.non_committed_events.entries.len()
            invariant
                j <= self@.non_committed_events.len(),
                k + (self@.non_committed_events.len() - j) == start.server.non_committed_events.len(),
                (State {
                    server: ServerState { non_committed_events: self@.non_committed_events.take(j as int), ..self@ },
                    store: store@,
                }) == start.pass(*armory, *next_message, k),
                self@.non_committed_events.skip(j as int) == start.server.non_committed_events.skip(k as int),
            decreases self@.non_committed_events.len() - j,
        {
            proof {
                lemma_skip_step(self@.non_committed_events, j as int, start.server.non_committed_events, k as int);
            }
            let stays = self.decide_at(store, armory, next_message, j);
            if stays {
                j += 1;
            }
            proof {
                k = k + 1;
            }
        }
        assert(self@.non_committed_events.take(j as int) =~= self@.non_committed_events);
    }

    /// Evicts every buffer whose first message is more than the lifetime
    /// of a buffer older than `current_timestamp`.  A timestamp that lies
    /// before that of the first message counts as no time passed.
    pub fn cleanup(&mut self, current_timestamp: u64)
        ensures
            final(self)@ == old(self)@.cleanup(current_timestamp),
            old(self)@.wf() ==> final(self)@.wf(),
    {
        let ghost start = self@;
        proof {
            if start.wf() {
                crate::well_formed::lemma_cleanup_wf(start, current_timestamp);
            }
        }
        let ghost mut k: nat = 0;
        let mut j: usize = 0;
        assert(self@.non_committed_events.take(0) =~= Seq::empty());
        assert(self@.non_committed_events.skip(0) =~= start.non_committed_events);
        while j < self.non_committed_events.entries.len()
            invariant
                j <= self@.non_committed_events.len(),
                k + (self@.non_committed_events.len() - j) == start.non_committed_events.len(),
                self@.non_committed_events.take(j as int) == fresh_buffers(
                    start.non_committed_events,
                    current_timestamp,
                    k,
                ),
                self@.non_committed_events.skip(j as int) == start.non_committed_events.skip(k as int),
                self@ == (ServerState { non_committed_events: self@.non_committed_events, ..start }),
            decreases self@.non_committed_events.len() - j,
        {
            let ghost before = self@;
            proof {
                lemma_skip_step(before.non_committed_events, j as int, start.non_committed_events, k as int);
            }
            let buffer = &self.non_committed_events.entries[j].value;
            let stale = buffer.len() == 0 || (current_timestamp > buffer[0].timestamp && current_timestamp
                - buffer[0].timestamp > PENDING_LIFETIME);
            if stale {
                self.drop_buffer(j);
                proof {
                    assert(self@.non_committed_events.take(j as int) =~= before.non_committed_events.take(j as int));
                    assert(self@.non_committed_events.skip(j as int) =~= before.non_committed_events.skip(j + 1));
                }
            } else {
                j += 1;
                proof {
                    assert(self@.non_committed_events.take(j as int) =~= before.non_committed_events.take(j - 1).push(
                        start.non_committed_events[k as int],
                    ));
                }
            }
            proof {
                k = k + 1;
            }
        }
        assert(self@.non_committed_events.take(j as int) =~= self@.non_committed_events);
    }

    /// Puts `message` at the end of the buffer of its subject, and opens
    /// that buffer where the subject has none.  A message without a
    /// subject is not kept.
    pub fn push_non_committed_event(&mut self, message: Message)
        ensures
            final(self)@ == old(self)@.push_non_committed_event(message),
            old(self)@.wf() ==> final(self)@.wf(),
    {
        let subject_id = match message.subject_id() {
            Some(subject_id) => subject_id,
            None => {
                return ;
            },
        };
        let ghost before = self@.non_committed_events;
        proof {
            lemma_buffers_lookup(self.non_committed_events@, subject_id);
            if self@.wf() {
                crate::well_formed::lemma_push_wf(self@, message);
            }
        }
        match self.non_committed_events.position(subject_id) {
            Some(i) => {
                self.non_committed_events.entries[i].value.push(message);
                proof {
                    let after = buffers_view(self.non_committed_events@);
                    let wanted = with_entry(before, subject_id, before[i as int].value.push(message));
                    assert(after.len() == wanted.len());
                    assert forall|l: int| 0 <= l < after.len() implies after[l] == wanted[l] by {
                        if l == i {
                            assert(after[l].value =~= wanted[l].value);
                        }
                    }
                    assert(after =~= wanted);
                }
            },
            None => {
                let mut buffer: Vec<Message> = Vec::new();
                buffer.push(message);
                self.non_committed_events.entries.push(Entry { key: subject_id, value: buffer });
                proof {
                    let after = buffers_view(self.non_committed_events@);
                    let wanted = with_entry(before, subject_id, seq![message]);
                    assert(after.len() == wanted.len());
                    assert forall|l: int| 0 <= l < after.len() implies after[l] == wanted[l] by {
                        if l == after.len() - 1 {
                            assert(after[l].value =~= wanted[l].value);
                        }
                    }
                    assert(after =~= wanted);
                }
            },
        }
    }
}

/// How many milliseconds lie between two rounds of post-processing.
pub const POST_PROCESSING_INTERVAL: u64 = 5_000;

/// Where the message loop stands: the state, and the times from which on
/// the next reset sweep and the next round of post-processing are due.
pub struct Run {
    pub state: State,
    pub next_reset: u64,
    pub next_post_processing: u64,
}

impl Run {
    /// The run as a batch of messages finds it: both times are `0`, so
    /// that the first message brings a sweep and a round of
    /// post-processing.
    pub open spec fn start(state: State) -> Run {
        Run { state, next_reset: 0, next_post_processing: 0 }
    }

    /// The run after `message` was processed.
    ///
    /// The message is first read for what it says of summons, positions
    /// and matches, and then held against every pending buffer.  Buffers
    /// that have waited too long are evicted.  A message whose time has
    /// reached the next reset brings the reset sweep, and one whose time
    /// has reached the next round of post-processing has that round asked
    /// of the store.  At last the message joins the buffer of its
    /// subject.
    pub open spec fn step(self, armory: Armory, message: Message) -> Run {
        let now = message.timestamp;
        let read = self.state.extract_meta_information(armory, message);
        let tested = read.test_for_committable_events(armory, message);
        let cleaned = State { server: tested.server.cleanup(now), ..tested };
        let swept = if now >= self.next_reset {
            cleaned.reset_instances(now)
        } else {
            cleaned
        };
        let reset_due = if now >= self.next_reset {
            next_reset(cleaned.server.instance_resets, now, cleaned.server.instance_resets.len())
        } else {
            self.next_reset
        };
        let processed = if now >= self.next_post_processing {
            State { store: swept.store.record(StoreOp::PostProcess { timestamp: now }), ..swept }
        } else {
            swept
        };
        let next_post_processing = if now >= self.next_post_processing {
            now.saturating_add(POST_PROCESSING_INTERVAL)
        } else {
            self.next_post_processing
        };
        Run {
            state: State { server: processed.server.push_non_committed_event(message), ..processed },
            next_reset: reset_due,
            next_post_processing,
        }
    }

    /// The run after the first `n` of `messages` were processed in their
    /// order.
    pub open spec fn run(self, armory: Armory, messages: Seq<Message>, n: nat) -> Run
        decreases n,
    {
        if n == 0 {
            self
        } else {
            self.run(armory, messages, (n - 1) as nat).step(armory, messages[n - 1])
        }
    }
}

impl Server {
    /// Processes a batch of messages in the order of their arrival, as
    /// [`Run::step`] says for each, and never fails.
    pub fn parse_events(&mut self, store: &mut Store, armory: &Armory, messages: Vec<Message>) -> (r: Result<
        (),
        LiveDataProcessorFailure,
    >)
        ensures
            r is Ok,
            (State { server: final(self)@, store: final(store)@ }) == Run::start(
                State { server: old(self)@, store: old(store)@ },
            ).run(*armory, messages@, messages@.len()).state,
            (State { server: old(self)@, store: old(store)@ }).wf() ==> (State {
                server: final(self)@,
                store: final(store)@,
            }).wf(),
    {
        let ghost start = Run::start(State { server: self@, store: store@ });
        proof {
            if start.state.wf() {
                crate::well_formed::lemma_run_wf(start, *armory, messages@, messages@.len());
            }
        }
        let mut next_reset: u64 = 0;
        let mut next_post_processing: u64 = 0;
        let mut i: usize = 0;
        while i < messages.len()
            invariant
                i <= messages.len(),
                (Run { state: State { server: self@, store: store@ }, next_reset, next_post_processing })
                    == start.run(*armory, messages@, i as nat),
            decreases messages.len() - i,
        {
            let message = messages[i];
            self.extract_meta_information(store, armory, &message);
            self.test_for_committable_events(store, armory, &message);
            self.cleanup(message.timestamp);
            if message.timestamp >= next_reset {
                next_reset = self.reset_instances(store, message.timestamp);
            }
            if message.timestamp >= next_post_processing {
                store.record(StoreOp::PostProcess { timestamp: message.timestamp });
                next_post_processing = message.timestamp.saturating_add(POST_PROCESSING_INTERVAL);
            }
            self.push_non_committed_event(message);
            i += 1;
        }
        Ok(())
    }
}

/// A pass over the pending buffers changes of the server only the pending
/// buffers and the logs, and of the store only the journal.
pub proof fn lemma_pass_frame(state: State, armory: Armory, next: Message, n: nat)
    requires
        n <= state.server.non_committed_events.len(),
    ensures
        state.pass(armory, next, n).server == (ServerState {
            non_committed_events: state.pass(armory, next, n).server.non_committed_events,
            committed_events: state.pass(armory, next, n).server.committed_events,
            ..state.server
        }),
        state.pass(armory, next, n).store == (crate::store::StoreState {
            journal: state.pass(armory, next, n).store.journal,
            ..state.store
        }),
    decreases n,
{
    if n > 0 {
        lemma_pass_frame(state, armory, next, (n - 1) as nat);
    }
}

/// A buffer whose subject is in no running encounter commits nothing:
/// whatever becomes of the buffer, the logs and the store stay as they
/// are.
pub proof fn lemma_no_event_outside_encounter(state: State, armory: Armory, buffer: Entry<Seq<Message>>, next: Message)
    requires
        state.server.encounter_of(buffer.key) is None,
    ensures
        state.decide(armory, buffer, next).server.committed_events == state.server.committed_events,
        state.decide(armory, buffer, next).store == state.store,
{
}

/// While no subject of a pending buffer is in a running encounter, a
/// pass over the buffers commits nothing.
pub proof fn lemma_pass_outside_encounter(state: State, armory: Armory, next: Message, n: nat)
    requires
        n <= state.server.non_committed_events.len(),
        forall|i: int|
            0 <= i < n ==> state.server.encounter_of((#[trigger] state.server.non_committed_events[i]).key) is None,
    ensures
        state.pass(armory, next, n).server.committed_events == state.server.committed_events,
        state.pass(armory, next, n).store == state.store,
    decreases n,
{
    if n > 0 {
        lemma_pass_outside_encounter(state, armory, next, (n - 1) as nat);
        lemma_pass_frame(state, armory, next, (n - 1) as nat);
        let before = state.pass(armory, next, (n - 1) as nat);
        let buffer = state.server.non_committed_events[n - 1];
        assert(before.server.encounter_of(buffer.key) == state.server.encounter_of(buffer.key));
        lemma_no_event_outside_encounter(before, armory, buffer, next);
    }
}

} // verus!
