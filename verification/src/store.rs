//! The persistence adapter.
//!
//! A [`Store`] mirrors in memory the tables that the correlator reads back
//! (the encounter records, the raid difficulties, the reset schedule) and
//! journals every write in the order in which it was made.  Whoever owns
//! the database replays the journal against it and clears `online` while
//! the database cannot be reached; a store that is not online refuses
//! every write and changes nothing.
use vstd::prelude::*;
use crate::domain_value::{InstanceReset, UnitInstance};

verus! {

/// A row of `instance_meta`: one encounter.
#[derive(Clone, Copy, Debug, PartialEq, Eq)]
pub struct InstanceMeta {
    pub id: u32,
    pub server_id: u32,
    pub start_ts: u64,
    pub end_ts: Option<u64>,
    pub instance_id: u32,
    pub map_id: u32,
    pub expired: bool,
}

/// A row of `instance_raid`.
#[derive(Clone, Copy, Debug, PartialEq, Eq)]
pub struct InstanceRaid {
    pub instance_meta_id: u32,
    pub map_difficulty: u8,
}

/// A row of `armory_instance_resets`.
#[derive(Clone, Copy, Debug, PartialEq, Eq)]
pub struct InstanceResetRow {
    pub server_id: u32,
    pub map_id: u32,
    pub difficulty: u8,
    pub reset_time: u64,
}

/// One write, as the journal keeps it.
#[derive(Clone, Copy, Debug, PartialEq, Eq)]
pub enum StoreOp {
    CreateInstanceMeta { id: u32, server_id: u32, start_ts: u64, instance_id: u32, map_id: u32 },
    FinalizeInstanceMeta { instance_meta_id: u32, end_ts: u64 },
    InsertRaid { instance_meta_id: u32, map_difficulty: u8 },
    InsertSkirmish { instance_meta_id: u32 },
    InsertRatedArena { instance_meta_id: u32, team_id1: u32, team_id2: u32 },
    InsertBattleground { instance_meta_id: u32 },
    UpdateSkirmishResult { instance_meta_id: u32, winner: Option<u8> },
    UpdateRatedArenaResult { instance_meta_id: u32, winner: Option<u8>, team_change1: i32, team_change2: i32 },
    UpdateBattlegroundResult { instance_meta_id: u32, winner: Option<u8>, score_alliance: u32, score_horde: u32 },
    UpsertParticipant { instance_meta_id: u32, character_id: u32, history_id: Option<u32> },
    InsertEvent { instance_meta_id: u32, event_id: u32 },
    PostProcess { timestamp: u64 },
}

/// The mirror of the tables with the journal of the writes made to it.
/// Encounter ids are given out from `next_instance_meta_id` on.
pub struct Store {
    pub online: bool,
    pub next_instance_meta_id: u32,
    pub instance_meta: Vec<InstanceMeta>,
    pub instance_raid: Vec<InstanceRaid>,
    pub instance_resets: Vec<InstanceResetRow>,
    pub journal: Vec<StoreOp>,
}

/// The model of a [`Store`].
pub struct StoreState {
    pub online: bool,
    pub next_instance_meta_id: u32,
    pub instance_meta: Seq<InstanceMeta>,
    pub instance_raid: Seq<InstanceRaid>,
    pub instance_resets: Seq<InstanceResetRow>,
    pub journal: Seq<StoreOp>,
}

impl View for Store {
    type V = StoreState;

    open spec fn view(&self) -> StoreState {
        StoreState {
            online: self.online,
            next_instance_meta_id: self.next_instance_meta_id,
            instance_meta: self.instance_meta@,
            instance_raid: self.instance_raid@,
            instance_resets: self.instance_resets@,
            journal: self.journal@,
        }
    }
}

/// Whether some row from position `from` on is a running encounter of the
/// given server, instance and map.
pub open spec fn has_running(rows: Seq<InstanceMeta>, server_id: u32, instance_id: u32, map_id: u32, from: int) -> bool
    decreases rows.len() - from,
{
    if from < 0 || from >= rows.len() {
        false
    } else if is_running(rows[from], server_id, instance_id, map_id) {
        true
    } else {
        has_running(rows, server_id, instance_id, map_id, from + 1)
    }
}

/// The row `row` after the encounter `instance_meta_id` was closed at
/// `end_ts`: an end that was set before stays.
pub open spec fn finalized(row: InstanceMeta, instance_meta_id: u32, end_ts: u64) -> InstanceMeta {
    if row.id == instance_meta_id {
        InstanceMeta {
            end_ts: match row.end_ts {
                Some(earlier) => Some(earlier),
                None => Some(end_ts),
            },
            expired: true,
            ..row
        }
    } else {
        row
    }
}

/// The rows after the encounter `instance_meta_id` was closed at `end_ts`.
pub open spec fn finalized_rows(rows: Seq<InstanceMeta>, instance_meta_id: u32, end_ts: u64) -> Seq<InstanceMeta> {
    Seq::new(rows.len(), |i: int| finalized(rows[i], instance_meta_id, end_ts))
}

/// The difficulty on record for the raid `instance_meta_id`, looked for
/// from position `from` on; `0` where there is none.
pub open spec fn raid_difficulty(rows: Seq<InstanceRaid>, instance_meta_id: u32, from: int) -> u8
    decreases rows.len() - from,
{
    if from < 0 || from >= rows.len() {
        0
    } else if rows[from].instance_meta_id == instance_meta_id {
        rows[from].map_difficulty
    } else {
        raid_difficulty(rows, instance_meta_id, from + 1)
    }
}

/// Whether `row` is a running encounter of the given server, instance and
/// map.
pub open spec fn is_running(row: InstanceMeta, server_id: u32, instance_id: u32, map_id: u32) -> bool {
    !row.expired && row.server_id == server_id && row.instance_id == instance_id && row.map_id == map_id
}

/// No two encounters have the same id, and no two running encounters
/// belong to the same server, instance and map.
pub open spec fn rows_unique(rows: Seq<InstanceMeta>) -> bool {
    forall|i: int, j: int|
        0 <= i < j < rows.len() ==> {
            &&& (#[trigger] rows[i]).id != (#[trigger] rows[j]).id
            &&& !(!rows[i].expired && is_running(rows[j], rows[i].server_id, rows[i].instance_id, rows[i].map_id))
        }
}

/// Where no encounter of the given server, instance and map is found
/// running from position `from` on, no row from there on is one.
pub proof fn lemma_none_running(rows: Seq<InstanceMeta>, server_id: u32, instance_id: u32, map_id: u32, from: int)
    requires
        0 <= from,
        !has_running(rows, server_id, instance_id, map_id, from),
    ensures
        forall|j: int| from <= j < rows.len() ==> !is_running(#[trigger] rows[j], server_id, instance_id, map_id),
    decreases rows.len() - from,
{
    if from < rows.len() {
        lemma_none_running(rows, server_id, instance_id, map_id, from + 1);
    }
}

impl StoreState {
    /// Every encounter id in use lies below the next one to be given out,
    /// no two encounters have the same id, and no two running encounters
    /// belong to the same server, instance and map.
    pub open spec fn wf(self) -> bool {
        &&& forall|i: int| 0 <= i < self.instance_meta.len() ==> (#[trigger] self.instance_meta[i]).id
            < self.next_instance_meta_id
        &&& rows_unique(self.instance_meta)
    }

    /// Opening an encounter leaves the store well formed.
    pub proof fn lemma_create_wf(self, server_id: u32, start_ts: u64, instance_id: u32, map_id: u32)
        requires
            self.wf(),
        ensures
            self.create_instance_meta(server_id, start_ts, instance_id, map_id).wf(),
    {
        if self.can_create(server_id, instance_id, map_id) {
            lemma_none_running(self.instance_meta, server_id, instance_id, map_id, 0);
            let after = self.create_instance_meta(server_id, start_ts, instance_id, map_id).instance_meta;
            assert forall|i: int, j: int| 0 <= i < j < after.len() implies {
                &&& (#[trigger] after[i]).id != (#[trigger] after[j]).id
                &&& !(!after[i].expired && is_running(
                    after[j],
                    after[i].server_id,
                    after[i].instance_id,
                    after[i].map_id,
                ))
            } by {
                assert(after[i] == self.instance_meta[i]);
                if j < self.instance_meta.len() {
                    assert(after[j] == self.instance_meta[j]);
                }
            }
        }
    }

    /// Closing an encounter leaves the store well formed.
    pub proof fn lemma_finalize_wf(self, instance_meta_id: u32, end_ts: u64)
        requires
            self.wf(),
        ensures
            self.finalize_instance_meta(instance_meta_id, end_ts).wf(),
    {
        let after = self.finalize_instance_meta(instance_meta_id, end_ts).instance_meta;
        if self.online {
            assert forall|i: int, j: int| 0 <= i < j < after.len() implies {
                &&& (#[trigger] after[i]).id != (#[trigger] after[j]).id
                &&& !(!after[i].expired && is_running(
                    after[j],
                    after[i].server_id,
                    after[i].instance_id,
                    after[i].map_id,
                ))
            } by {
                assert(self.instance_meta[i].id != self.instance_meta[j].id);
            }
        }
    }

    /// The store after the write `op` was asked for.
    pub open spec fn record(self, op: StoreOp) -> StoreState {
        if self.online {
            StoreState { journal: self.journal.push(op), ..self }
        } else {
            self
        }
    }

    /// Whether a new encounter of the given server, instance and map can
    /// be opened: the store is online, no such encounter is running, and
    /// an id is left.
    pub open spec fn can_create(self, server_id: u32, instance_id: u32, map_id: u32) -> bool {
        &&& self.online
        &&& !has_running(self.instance_meta, server_id, instance_id, map_id, 0)
        &&& self.next_instance_meta_id < u32::MAX
    }

    /// The store after an encounter was asked for.
    pub open spec fn create_instance_meta(self, server_id: u32, start_ts: u64, instance_id: u32, map_id: u32) -> StoreState {
        if self.can_create(server_id, instance_id, map_id) {
            let id = self.next_instance_meta_id;
            StoreState {
                next_instance_meta_id: (id + 1) as u32,
                instance_meta: self.instance_meta.push(
                    InstanceMeta { id, server_id, start_ts, end_ts: None, instance_id, map_id, expired: false },
                ),
                journal: self.journal.push(
                    StoreOp::CreateInstanceMeta { id, server_id, start_ts, instance_id, map_id },
                ),
                ..self
            }
        } else {
            self
        }
    }

    /// The store after the encounter `instance_meta_id` was closed.
    pub open spec fn finalize_instance_meta(self, instance_meta_id: u32, end_ts: u64) -> StoreState {
        if self.online {
            StoreState {
                instance_meta: finalized_rows(self.instance_meta, instance_meta_id, end_ts),
                journal: self.journal.push(StoreOp::FinalizeInstanceMeta { instance_meta_id, end_ts }),
                ..self
            }
        } else {
            self
        }
    }

    /// The store after a raid difficulty was put on record.
    pub open spec fn insert_raid(self, instance_meta_id: u32, map_difficulty: u8) -> StoreState {
        if self.online {
            StoreState {
                instance_raid: self.instance_raid.push(InstanceRaid { instance_meta_id, map_difficulty }),
                journal: self.journal.push(StoreOp::InsertRaid { instance_meta_id, map_difficulty }),
                ..self
            }
        } else {
            self
        }
    }

    /// The running encounters of `server_id` among the first `n` rows, in
    /// the order of the rows.
    pub open spec fn load_active_instances(self, server_id: u32, n: nat) -> Seq<UnitInstance>
        decreases n,
    {
        if n == 0 {
            Seq::empty()
        } else {
            let row = self.instance_meta[n - 1];
            let before = self.load_active_instances(server_id, (n - 1) as nat);
            if row.server_id == server_id && !row.expired {
                before.push(
                    UnitInstance {
                        instance_meta_id: row.id,
                        entered: row.start_ts,
                        map_id: row.map_id,
                        map_difficulty: raid_difficulty(self.instance_raid, row.id, 0),
                        instance_id: row.instance_id,
                    },
                )
            } else {
                before
            }
        }
    }

    /// The reset schedule of `server_id` among the first `n` rows, in the
    /// order of the rows.
    pub open spec fn load_instance_resets(self, server_id: u32, n: nat) -> Seq<InstanceReset>
        decreases n,
    {
        if n == 0 {
            Seq::empty()
        } else {
            let row = self.instance_resets[n - 1];
            let before = self.load_instance_resets(server_id, (n - 1) as nat);
            if row.server_id == server_id {
                before.push(InstanceReset { map_id: row.map_id, difficulty: row.difficulty, reset_time: row.reset_time })
            } else {
                before
            }
        }
    }
}

impl Store {
    /// An empty store that is online and gives out encounter ids from `1`.
    pub fn new() -> (s: Self)
        ensures
            s@.wf(),
            s@.online,
            s@.next_instance_meta_id == 1,
            s@.instance_meta.len() == 0,
            s@.instance_raid.len() == 0,
            s@.instance_resets.len() == 0,
            s@.journal.len() == 0,
    {
        Store {
            online: true,
            next_instance_meta_id: 1,
            instance_meta: Vec::new(),
            instance_raid: Vec::new(),
            instance_resets: Vec::new(),
            journal: Vec::new(),
        }
    }

    /// Journals a write that the mirror need not reflect.  Gives `true`
    /// where the store is online, and refuses the write where it is not.
    pub fn record(&mut self, op: StoreOp) -> (done: bool)
        ensures
            done == old(self)@.online,
            final(self)@ == old(self)@.record(op),
            old(self)@.wf() ==> final(self)@.wf(),
    {
        if self.online {
            self.journal.push(op);
            true
        } else {
            false
        }
    }

    fn has_running(&self, server_id: u32, instance_id: u32, map_id: u32) -> (b: bool)
        ensures
            b == has_running(self@.instance_meta, server_id, instance_id, map_id, 0),
    {
        let mut i: usize = 0;
        while i < self.instance_meta.len()
            invariant
                i <= self.instance_meta.len(),
                has_running(self@.instance_meta, server_id, instance_id, map_id, 0) == has_running(
                    self@.instance_meta,
                    server_id,
                    instance_id,
                    map_id,
                    i as int,
                ),
            decreases self.instance_meta.len() - i,
        {
            let row = self.instance_meta[i];
            if !row.expired && row.server_id == server_id && row.instance_id == instance_id && row.map_id == map_id {
                return true;
            }
            i += 1;
        }
        false
    }

    /// Opens an encounter and gives its id, which no earlier encounter
    /// has.  Gives `None`, and changes nothing, where the store is not
    /// online, where such an encounter is running already, and where no id
    /// is left.
    pub fn create_instance_meta(&mut self, server_id: u32, start_ts: u64, instance_id: u32, map_id: u32) -> (r: Option<
        u32,
    >)
        ensures
            final(self)@ == old(self)@.create_instance_meta(server_id, start_ts, instance_id, map_id),
            r == if old(self)@.can_create(server_id, instance_id, map_id) {
                Some(old(self)@.next_instance_meta_id)
            } else {
                None
            },
            old(self)@.wf() ==> final(self)@.wf(),
    {
        proof {
            if self@.wf() {
                self@.lemma_create_wf(server_id, start_ts, instance_id, map_id);
            }
        }
        if !self.online || self.next_instance_meta_id == u32::MAX || self.has_running(server_id, instance_id, map_id) {
            return None;
        }
        let id = self.next_instance_meta_id;
        self.instance_meta.push(
            InstanceMeta { id, server_id, start_ts, end_ts: None, instance_id, map_id, expired: false },
        );
        self.journal.push(StoreOp::CreateInstanceMeta { id, server_id, start_ts, instance_id, map_id });
        self.next_instance_meta_id = id + 1;
        Some(id)
    }

    /// Closes the encounter `instance_meta_id`: marks it expired and, where
    /// it has no end yet, sets its end to `end_ts`.  Gives `true` where the
    /// store is online, and changes nothing where it is not.
    pub fn finalize_instance_meta(&mut self, instance_meta_id: u32, end_ts: u64) -> (done: bool)
        ensures
            done == old(self)@.online,
            final(self)@ == old(self)@.finalize_instance_meta(instance_meta_id, end_ts),
            old(self)@.wf() ==> final(self)@.wf(),
    {
        proof {
            if self@.wf() {
                self@.lemma_finalize_wf(instance_meta_id, end_ts);
            }
        }
        if !self.online {
            return false;
        }
        let ghost rows = self.instance_meta@;
        let mut i: usize = 0;
        while i < self.instance_meta.len()
            invariant
                i <= self.instance_meta.len(),
                self.instance_meta@.len() == rows.len(),
                forall|j: int| 0 <= j < i ==> self.instance_meta@[j] == finalized(rows[j], instance_meta_id, end_ts),
                forall|j: int| i <= j < rows.len() ==> self.instance_meta@[j] == rows[j],
                self.online == old(self).online,
                self.next_instance_meta_id == old(self).next_instance_meta_id,
                self.instance_raid == old(self).instance_raid,
                self.instance_resets == old(self).instance_resets,
                self.journal == old(self).journal,
            decreases self.instance_meta.len() - i,
        {
            if self.instance_meta[i].id == instance_meta_id {
                if self.instance_meta[i].end_ts.is_none() {
                    self.instance_meta[i].end_ts = Some(end_ts);
                }
                self.instance_meta[i].expired = true;
            }
            i += 1;
        }
        self.journal.push(StoreOp::FinalizeInstanceMeta { instance_meta_id, end_ts });
        assert(self.instance_meta@ =~= finalized_rows(rows, instance_meta_id, end_ts));
        true
    }

    /// Puts the difficulty of a raid on record.  Gives `true` where the
    /// store is online, and changes nothing where it is not.
    pub fn insert_raid(&mut self, instance_meta_id: u32, map_difficulty: u8) -> (done: bool)
        ensures
            done == old(self)@.online,
            final(self)@ == old(self)@.insert_raid(instance_meta_id, map_difficulty),
            old(self)@.wf() ==> final(self)@.wf(),
    {
        if !self.online {
            return false;
        }
        self.instance_raid.push(InstanceRaid { instance_meta_id, map_difficulty });
        self.journal.push(StoreOp::InsertRaid { instance_meta_id, map_difficulty });
        true
    }

    fn difficulty_of(&self, instance_meta_id: u32) -> (d: u8)
        ensures
            d == raid_difficulty(self@.instance_raid, instance_meta_id, 0),
    {
        let mut i: usize = 0;
        while i < self.instance_raid.len()
            invariant
                i <= self.instance_raid.len(),
                raid_difficulty(self@.instance_raid, instance_meta_id, 0) == raid_difficulty(
                    self@.instance_raid,
                    instance_meta_id,
                    i as int,
                ),
            decreases self.instance_raid.len() - i,
        {
            if self.instance_raid[i].instance_meta_id == instance_meta_id {
                return self.instance_raid[i].map_difficulty;
            }
            i += 1;
        }
        0
    }

    /// The running encounters of `server_id`, oldest row first.
    pub fn load_active_instances(&self, server_id: u32) -> (r: Vec<UnitInstance>)
        ensures
            r@ == self@.load_active_instances(server_id, self@.instance_meta.len()),
    {
        let mut out: Vec<UnitInstance> = Vec::new();
        let mut i: usize = 0;
        while i < self.instance_meta.len()
            invariant
                i <= self.instance_meta.len(),
                out@ == self@.load_active_instances(server_id, i as nat),
            decreases self.instance_meta.len() - i,
        {
            let row = self.instance_meta[i];
            if row.server_id == server_id && !row.expired {
                out.push(
                    UnitInstance {
                        instance_meta_id: row.id,
                        entered: row.start_ts,
                        map_id: row.map_id,
                        map_difficulty: self.difficulty_of(row.id),
                        instance_id: row.instance_id,
                    },
                );
            }
            i += 1;
        }
        out
    }

    /// The reset schedule of `server_id`, oldest row first.
    pub fn load_instance_resets(&self, server_id: u32) -> (r: Vec<InstanceReset>)
        ensures
            r@ == self@.load_instance_resets(server_id, self@.instance_resets.len()),
    {
        let mut out: Vec<InstanceReset> = Vec::new();
        let mut i: usize = 0;
        while i < self.instance_resets.len()
            invariant
                i <= self.instance_resets.len(),
                out@ == self@.load_instance_resets(server_id, i as nat),
            decreases self.instance_resets.len() - i,
        {
            let row = self.instance_resets[i];
            if row.server_id == server_id {
                out.push(InstanceReset { map_id: row.map_id, difficulty: row.difficulty, reset_time: row.reset_time });
            }
            i += 1;
        }
        out
    }

    /// Hands over the journal and starts a new one.
    pub fn take_journal(&mut self) -> (ops: Vec<StoreOp>)
        ensures
            ops@ == old(self)@.journal,
            final(self)@ == (StoreState { journal: Seq::empty(), ..old(self)@ }),
            old(self)@.wf() ==> final(self)@.wf(),
    {
        let mut ops: Vec<StoreOp> = Vec::new();
        std::mem::swap(&mut ops, &mut self.journal);
        ops
    }
}

} // verus!
