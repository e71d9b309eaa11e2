//! The state of one game-world shard.
use vstd::prelude::*;
use crate::cross_reference::{events_view, is_cast_by, within_lookback};
use crate::domain_value::{Event, EventTypeView, EventView, InstanceReset, Participant, Unit, UnitInstance};
use crate::dto::Message;
use crate::store::{Store, StoreState};
use crate::table::{distinct_keys, has_key, index_of, is_first, lemma_first_is_index, lemma_index_of, with_entry, Entry, Table};

verus! {

/// Everything the correlator knows of one server.  One writer owns it and
/// feeds it the messages of that server in the order of their arrival.
pub struct Server {
    pub server_id: u32,
    /// Owner GUID to the GUID of what it summoned last.
    pub summons: Table<u64>,
    /// Instance id to the instance that runs under it.
    pub active_instances: Table<UnitInstance>,
    /// Unit GUID to the id of the instance in which it was last seen.
    pub unit_instance_id: Table<u32>,
    /// Map id to the time at which its instances expire.
    pub instance_resets: Table<InstanceReset>,
    /// Who took part in which running encounter.
    pub instance_participants: Vec<Participant>,
    /// Subject GUID to the messages that wait for a decision, oldest first.
    pub non_committed_events: Table<Vec<Message>>,
    /// Encounter id to the events of that encounter, in the order in which
    /// they were committed.
    pub committed_events: Table<Vec<Event>>,
}

/// The model of a [`Server`].
pub struct ServerState {
    pub server_id: u32,
    pub summons: Seq<Entry<u64>>,
    pub active_instances: Seq<Entry<UnitInstance>>,
    pub unit_instance_id: Seq<Entry<u32>>,
    pub instance_resets: Seq<Entry<InstanceReset>>,
    pub instance_participants: Seq<Participant>,
    pub non_committed_events: Seq<Entry<Seq<Message>>>,
    pub committed_events: Seq<Entry<Seq<EventView>>>,
}

/// The model of the pending buffers.
pub open spec fn buffers_view(s: Seq<Entry<Vec<Message>>>) -> Seq<Entry<Seq<Message>>> {
    Seq::new(s.len(), |i: int| Entry { key: s[i].key, value: s[i].value@ })
}

/// The model of the event logs.
pub open spec fn logs_view(s: Seq<Entry<Vec<Event>>>) -> Seq<Entry<Seq<EventView>>> {
    Seq::new(s.len(), |i: int| Entry { key: s[i].key, value: events_view(s[i].value@) })
}

/// The events of every log are numbered from `1` in the order of the log.
pub open spec fn logs_numbered(logs: Seq<Entry<Seq<EventView>>>) -> bool {
    forall|l: int, i: int|
        0 <= l < logs.len() && 0 <= i < logs[l].value.len() ==> (#[trigger] logs[l].value[i]).id == i + 1
}

/// Two sequences of entries with the same keys at the same positions find
/// every key at the same place.
pub proof fn lemma_same_keys<A, B>(a: Seq<Entry<A>>, b: Seq<Entry<B>>, key: u64)
    requires
        a.len() == b.len(),
        forall|i: int| 0 <= i < a.len() ==> (#[trigger] a[i]).key == b[i].key,
    ensures
        has_key(a, key) == has_key(b, key),
        has_key(a, key) ==> index_of(a, key) == index_of(b, key),
        distinct_keys(a) == distinct_keys(b),
{
    if has_key(a, key) {
        lemma_index_of(a, key);
        let i = index_of(a, key);
        assert(b[i].key == key);
        assert(is_first(b, key, i)) by {
            assert forall|j: int| 0 <= j < i implies (#[trigger] b[j]).key != key by {
                assert(a[j].key != key);
            }
        }
        lemma_first_is_index(b, key, i);
    }
    if has_key(b, key) {
        let i = choose|i: int| 0 <= i < b.len() && (#[trigger] b[i]).key == key;
        assert(a[i].key == key);
    }
    if distinct_keys(a) {
        assert forall|i: int, j: int| 0 <= i < j < b.len() implies (#[trigger] b[i]).key != (#[trigger] b[j]).key by {
            assert(a[i].key != a[j].key);
        }
    }
    if distinct_keys(b) {
        assert forall|i: int, j: int| 0 <= i < j < a.len() implies (#[trigger] a[i]).key != (#[trigger] a[j]).key by {
            assert(b[i].key != b[j].key);
        }
    }
}

/// The table `table` with each of the first `n` loaded instances stored
/// under its instance id.
pub open spec fn with_instances(table: Seq<Entry<UnitInstance>>, loaded: Seq<UnitInstance>, n: nat) -> Seq<
    Entry<UnitInstance>,
>
    decreases n,
{
    if n == 0 {
        table
    } else {
        with_entry(with_instances(table, loaded, (n - 1) as nat), loaded[n - 1].instance_id as u64, loaded[n - 1])
    }
}

/// The table `table` with each of the first `n` loaded resets stored under
/// its map id.
pub open spec fn with_resets(table: Seq<Entry<InstanceReset>>, loaded: Seq<InstanceReset>, n: nat) -> Seq<
    Entry<InstanceReset>,
>
    decreases n,
{
    if n == 0 {
        table
    } else {
        with_entry(with_resets(table, loaded, (n - 1) as nat), loaded[n - 1].map_id as u64, loaded[n - 1])
    }
}

/// Every pending buffer holds at least one message, and only messages of
/// the subject under whose GUID it stands.
pub open spec fn buffers_keyed(pending: Seq<Entry<Seq<Message>>>) -> bool {
    forall|b: int|
        0 <= b < pending.len() ==> {
            &&& (#[trigger] pending[b]).value.len() > 0
            &&& forall|i: int|
                0 <= i < pending[b].value.len() ==> (#[trigger] pending[b].value[i]).spec_subject_id() == Some(
                    pending[b].key,
                )
        }
}

/// Every running instance stands under its own instance id.
pub open spec fn instances_keyed(instances: Seq<Entry<UnitInstance>>) -> bool {
    forall|i: int| 0 <= i < instances.len() ==> (#[trigger] instances[i]).key == instances[i].value.instance_id
}

/// No character is twice on the roster of one encounter.
pub open spec fn participants_distinct(participants: Seq<Participant>) -> bool {
    forall|i: int, j: int|
        0 <= i < j < participants.len() ==> !((#[trigger] participants[i]).instance_meta_id == (
        #[trigger] participants[j]).instance_meta_id && participants[i].character_id == participants[j].character_id)
}

/// Some event of `log` has the id `id` and is a cast by `caster` within
/// reach of `timestamp`; with `spell_id` given, a cast of that spell.
pub open spec fn cites_cast(log: Seq<EventView>, id: u32, caster: Unit, spell_id: Option<u32>, timestamp: u64) -> bool {
    exists|i: int| 0 <= i < log.len() && (#[trigger] log[i]).id == id && is_cast_by(log[i], caster, spell_id, timestamp)
}

/// Some event of `log` has the id `id` and is an aura application within
/// reach of `timestamp`.
pub open spec fn cites_aura(log: Seq<EventView>, id: u32, timestamp: u64) -> bool {
    exists|i: int|
        0 <= i < log.len() && (#[trigger] log[i]).id == id && log[i].event is AuraApplication && within_lookback(
            log[i].timestamp,
            timestamp,
        )
}

/// What `event` refers to is in `log`.  An interrupt refers to a cast of
/// the interrupted spell by its own subject.  A dispel and a spell steal
/// refer to a cast by their subject and to aura applications, a dispel to
/// at least one.  Each of them lies within reach of the event.
pub open spec fn event_resolved(log: Seq<EventView>, event: EventView) -> bool {
    match event.event {
        EventTypeView::Interrupt { cause_event_id, interrupted_spell_id } => cites_cast(
            log,
            cause_event_id,
            event.subject,
            Some(interrupted_spell_id),
            event.timestamp,
        ),
        EventTypeView::Dispel { cause_event_id, target_event_ids } => {
            &&& cites_cast(log, cause_event_id, event.subject, None, event.timestamp)
            &&& target_event_ids.len() >= 1
            &&& forall|k: int|
                0 <= k < target_event_ids.len() ==> cites_aura(log, #[trigger] target_event_ids[k], event.timestamp)
        },
        EventTypeView::SpellSteal { cause_event_id, target_event_id } => {
            &&& cites_cast(log, cause_event_id, event.subject, None, event.timestamp)
            &&& cites_aura(log, target_event_id, event.timestamp)
        },
        _ => true,
    }
}

/// In `log` every event refers only to events before it.
pub open spec fn log_resolved(log: Seq<EventView>) -> bool {
    forall|i: int| 0 <= i < log.len() ==> event_resolved(log.take(i), #[trigger] log[i])
}

/// In every log every event refers only to events before it in that log.
pub open spec fn references_resolved(logs: Seq<Entry<Seq<EventView>>>) -> bool {
    forall|l: int| 0 <= l < logs.len() ==> log_resolved((#[trigger] logs[l]).value)
}

impl ServerState {
    /// No table holds a key twice; every running instance stands under
    /// its instance id; no character is twice on a roster; every pending
    /// buffer holds messages of its subject, and at least one; the events
    /// of every encounter are numbered `1, 2, 3, ...` in the order in
    /// which they were committed, and each refers only to events before
    /// it.
    pub open spec fn wf(self) -> bool {
        &&& distinct_keys(self.summons)
        &&& distinct_keys(self.active_instances)
        &&& distinct_keys(self.unit_instance_id)
        &&& distinct_keys(self.instance_resets)
        &&& distinct_keys(self.non_committed_events)
        &&& distinct_keys(self.committed_events)
        &&& instances_keyed(self.active_instances)
        &&& participants_distinct(self.instance_participants)
        &&& buffers_keyed(self.non_committed_events)
        &&& logs_numbered(self.committed_events)
        &&& references_resolved(self.committed_events)
    }

    /// The server after it took up the running encounters and the reset
    /// schedule that the store holds for it.
    pub open spec fn init(self, store: StoreState) -> ServerState {
        let instances = store.load_active_instances(self.server_id, store.instance_meta.len());
        let resets = store.load_instance_resets(self.server_id, store.instance_resets.len());
        ServerState {
            active_instances: with_instances(self.active_instances, instances, instances.len()),
            instance_resets: with_resets(self.instance_resets, resets, resets.len()),
            ..self
        }
    }
}

impl View for Server {
    type V = ServerState;

    open spec fn view(&self) -> ServerState {
        ServerState {
            server_id: self.server_id,
            summons: self.summons@,
            active_instances: self.active_instances@,
            unit_instance_id: self.unit_instance_id@,
            instance_resets: self.instance_resets@,
            instance_participants: self.instance_participants@,
            non_committed_events: buffers_view(self.non_committed_events@),
            committed_events: logs_view(self.committed_events@),
        }
    }
}

impl Server {
    /// A server that has seen nothing yet.
    pub fn new(server_id: u32) -> (s: Self)
        ensures
            s@.wf(),
            s@.server_id == server_id,
            s@.summons.len() == 0,
            s@.active_instances.len() == 0,
            s@.unit_instance_id.len() == 0,
            s@.instance_resets.len() == 0,
            s@.instance_participants.len() == 0,
            s@.non_committed_events.len() == 0,
            s@.committed_events.len() == 0,
    {
        Server {
            server_id,
            summons: Table::new(),
            active_instances: Table::new(),
            unit_instance_id: Table::new(),
            instance_resets: Table::new(),
            instance_participants: Vec::new(),
            non_committed_events: Table::new(),
            committed_events: Table::new(),
        }
    }

    /// Takes up the running encounters and the reset schedule that `store`
    /// holds for this server.
    pub fn init(self, store: &Store) -> (s: Self)
        ensures
            s@ == self@.init(store@),
            self@.wf() ==> s@.wf(),
            (crate::lifecycle::State { server: self@, store: store@ }).wf() ==> (crate::lifecycle::State {
                server: s@,
                store: store@,
            }).wf(),
    {
        let ghost start = self@;
        let mut server = self;
        let instances = store.load_active_instances(server.server_id);
        let mut i: usize = 0;
        while i < instances.len()
            invariant
                i <= instances.len(),
                server@ == (ServerState {
                    active_instances: with_instances(start.active_instances, instances@, i as nat),
                    ..start
                }),
            decreases instances.len() - i,
        {
            let instance = instances[i];
            server.active_instances.insert(instance.instance_id as u64, instance);
            i += 1;
        }
        let ghost middle = server@;
        let resets = store.load_instance_resets(server.server_id);
        let mut j: usize = 0;
        while j < resets.len()
            invariant
                j <= resets.len(),
                server@ == (ServerState {
                    instance_resets: with_resets(middle.instance_resets, resets@, j as nat),
                    ..middle
                }),
            decreases resets.len() - j,
        {
            let reset = resets[j];
            server.instance_resets.insert(reset.map_id as u64, reset);
            j += 1;
        }
        proof {
            if start.wf() {
                crate::well_formed::lemma_init_wf(start, store@);
            }
            if (crate::lifecycle::State { server: start, store: store@ }).wf() {
                crate::well_formed::lemma_init_state_wf(crate::lifecycle::State { server: start, store: store@ });
            }
        }
        server
    }
}

} // verus!
