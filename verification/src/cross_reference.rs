//! The cross-reference resolver.
//!
//! An interrupt, a dispel and a spell steal each point back at events that
//! were committed before them in the same encounter: the cast that caused
//! them, and the aura applications that they removed.  The resolver finds
//! those events in the log of the encounter.
use vstd::prelude::*;
use crate::armory::Armory;
use crate::domain_value::{Event, EventParseFailureAction, EventType, EventTypeView, EventView, Unit};
use crate::dto;
use crate::map_unit::spec_to_unit;
use crate::table::{Entry, Table};

verus! {

/// How many milliseconds a reference may reach back.
pub const CROSS_REFERENCE_LOOKBACK: u64 = 10_000;

/// The model of an event log.
pub open spec fn events_view(log: Seq<Event>) -> Seq<EventView> {
    Seq::new(log.len(), |i: int| log[i]@)
}

/// Whether an event of time `event_timestamp` is within reach of a
/// reference made at `timestamp`.
pub open spec fn within_lookback(event_timestamp: u64, timestamp: u64) -> bool {
    timestamp - event_timestamp <= CROSS_REFERENCE_LOOKBACK
}

/// The disposition of a reference that found nothing: dropped once the
/// lookback window has passed, kept waiting until then.
pub open spec fn spec_missed(timestamp: u64, next_timestamp: u64) -> EventParseFailureAction {
    if next_timestamp - timestamp > CROSS_REFERENCE_LOOKBACK {
        EventParseFailureAction::DiscardFirst
    } else {
        EventParseFailureAction::Wait
    }
}

/// Whether `e` is a spell that `caster` cast within reach of `timestamp`;
/// with `spell_id` given, a cast of that spell.
pub open spec fn is_cast_by(e: EventView, caster: Unit, spell_id: Option<u32>, timestamp: u64) -> bool {
    &&& e.subject == caster
    &&& within_lookback(e.timestamp, timestamp)
    &&& e.event matches EventTypeView::SpellCast(spell)
    &&& (spell_id matches Some(id) ==> spell.spell_id == id)
}

/// Whether `e` is an application of the aura `spell_id` on `target` within
/// reach of `timestamp`.
pub open spec fn is_aura_on(e: EventView, target: Unit, spell_id: u32, timestamp: u64) -> bool {
    &&& e.subject == target
    &&& within_lookback(e.timestamp, timestamp)
    &&& e.event matches EventTypeView::AuraApplication(aura)
    &&& aura.spell_id == spell_id
}

/// The id of the last of the first `n` events of `log` that is a cast by
/// `caster` as [`is_cast_by`] has it.
pub open spec fn last_cast(log: Seq<EventView>, caster: Unit, spell_id: Option<u32>, timestamp: u64, n: nat) -> Option<
    u32,
>
    decreases n,
{
    if n == 0 {
        None
    } else if is_cast_by(log[n - 1], caster, spell_id, timestamp) {
        Some(log[n - 1].id)
    } else {
        last_cast(log, caster, spell_id, timestamp, (n - 1) as nat)
    }
}

/// The ids of those of the first `n` events of `log` that apply the aura
/// `spell_id` to `target` as [`is_aura_on`] has it, in the order of the log.
pub open spec fn aura_ids(log: Seq<EventView>, target: Unit, spell_id: u32, timestamp: u64, n: nat) -> Seq<u32>
    decreases n,
{
    if n == 0 {
        Seq::empty()
    } else if is_aura_on(log[n - 1], target, spell_id, timestamp) {
        aura_ids(log, target, spell_id, timestamp, (n - 1) as nat).push(log[n - 1].id)
    } else {
        aura_ids(log, target, spell_id, timestamp, (n - 1) as nat)
    }
}

/// The cast that an interrupt stopped: the last cast of the interrupted
/// spell by the interrupted unit.
pub open spec fn spec_try_parse_interrupt(
    interrupt: dto::Interrupt,
    log: Seq<EventView>,
    timestamp: u64,
    next_timestamp: u64,
    subject: Unit,
) -> Result<(u32, u32), EventParseFailureAction> {
    match last_cast(log, subject, Some(interrupt.interrupted_spell_id), timestamp, log.len()) {
        Some(cause) => Ok((cause, interrupt.interrupted_spell_id)),
        None => Err(spec_missed(timestamp, next_timestamp)),
    }
}

/// The cast behind a removal of auras and the applications that it undid:
/// the last cast by `caster`, and every application of `spell_id` on
/// `target`.
pub open spec fn spec_find_removal(
    caster: dto::Unit,
    target: dto::Unit,
    spell_id: u32,
    log: Seq<EventView>,
    timestamp: u64,
    next_timestamp: u64,
    armory: Armory,
    server_id: u32,
    summons: Seq<Entry<u64>>,
) -> Result<(u32, Seq<u32>), EventParseFailureAction> {
    match (spec_to_unit(caster, armory, server_id, summons), spec_to_unit(target, armory, server_id, summons)) {
        (Ok(by), Ok(on)) => match last_cast(log, by, None, timestamp, log.len()) {
            Some(cause) => Ok((cause, aura_ids(log, on, spell_id, timestamp, log.len()))),
            None => Err(spec_missed(timestamp, next_timestamp)),
        },
        _ => Err(EventParseFailureAction::DiscardFirst),
    }
}

/// What a dispel refers to; it needs its cause and at least one aura.
pub open spec fn spec_try_parse_dispel(
    dispel: dto::Dispel,
    log: Seq<EventView>,
    timestamp: u64,
    next_timestamp: u64,
    armory: Armory,
    server_id: u32,
    summons: Seq<Entry<u64>>,
) -> Result<(u32, Seq<u32>), EventParseFailureAction> {
    match spec_find_removal(
        dispel.aura_caster,
        dispel.target,
        dispel.dispelled_spell_id,
        log,
        timestamp,
        next_timestamp,
        armory,
        server_id,
        summons,
    ) {
        Ok((cause, targets)) => if targets.len() >= 1 {
            Ok((cause, targets))
        } else {
            Err(spec_missed(timestamp, next_timestamp))
        },
        Err(action) => Err(action),
    }
}

/// What a spell steal refers to; it needs its cause and exactly one aura.
pub open spec fn spec_try_parse_spell_steal(
    spell_steal: dto::SpellSteal,
    log: Seq<EventView>,
    timestamp: u64,
    next_timestamp: u64,
    armory: Armory,
    server_id: u32,
    summons: Seq<Entry<u64>>,
) -> Result<(u32, u32), EventParseFailureAction> {
    match spec_find_removal(
        spell_steal.aura_caster,
        spell_steal.target,
        spell_steal.spell_id,
        log,
        timestamp,
        next_timestamp,
        armory,
        server_id,
        summons,
    ) {
        Ok((cause, targets)) => if targets.len() == 1 {
            Ok((cause, targets[0]))
        } else {
            Err(spec_missed(timestamp, next_timestamp))
        },
        Err(action) => Err(action),
    }
}

fn is_within_lookback(event_timestamp: u64, timestamp: u64) -> (b: bool)
    ensures
        b == within_lookback(event_timestamp, timestamp),
{
    timestamp <= event_timestamp || timestamp - event_timestamp <= CROSS_REFERENCE_LOOKBACK
}

fn missed(timestamp: u64, next_timestamp: u64) -> (a: EventParseFailureAction)
    ensures
        a == spec_missed(timestamp, next_timestamp),
{
    if next_timestamp > timestamp && next_timestamp - timestamp > CROSS_REFERENCE_LOOKBACK {
        EventParseFailureAction::DiscardFirst
    } else {
        EventParseFailureAction::Wait
    }
}

fn find_last_cast(committed_events: &Vec<Event>, caster: &Unit, spell_id: Option<u32>, timestamp: u64) -> (r: Option<
    u32,
>)
    ensures
        r == last_cast(events_view(committed_events@), *caster, spell_id, timestamp, committed_events@.len()),
{
    let ghost log = events_view(committed_events@);
    let mut i: usize = committed_events.len();
    while i > 0
        invariant
            i <= committed_events.len(),
            log == events_view(committed_events@),
            last_cast(log, *caster, spell_id, timestamp, committed_events@.len()) == last_cast(
                log,
                *caster,
                spell_id,
                timestamp,
                i as nat,
            ),
        decreases i,
    {
        let e = &committed_events[i - 1];
        assert(log[i - 1] == e@);
        if e.subject.same(caster) && is_within_lookback(e.timestamp, timestamp) {
            match &e.event {
                EventType::SpellCast(spell) => {
                    let wanted = match spell_id {
                        Some(id) => spell.spell_id == id,
                        None => true,
                    };
                    if wanted {
                        return Some(e.id);
                    }
                },
                _ => {},
            }
        }
        i -= 1;
    }
    None
}

fn find_aura_ids(committed_events: &Vec<Event>, target: &Unit, spell_id: u32, timestamp: u64) -> (r: Vec<u32>)
    ensures
        r@ == aura_ids(events_view(committed_events@), *target, spell_id, timestamp, committed_events@.len()),
{
    let ghost log = events_view(committed_events@);
    let mut ids: Vec<u32> = Vec::new();
    let mut i: usize = 0;
    while i < committed_events.len()
        invariant
            i <= committed_events.len(),
            log == events_view(committed_events@),
            ids@ == aura_ids(log, *target, spell_id, timestamp, i as nat),
        decreases committed_events.len() - i,
    {
        let e = &committed_events[i];
        assert(log[i as int] == e@);
        if e.subject.same(target) && is_within_lookback(e.timestamp, timestamp) {
            match &e.event {
                EventType::AuraApplication(aura) => {
                    if aura.spell_id == spell_id {
                        ids.push(e.id);
                    }
                },
                _ => {},
            }
        }
        i += 1;
    }
    ids
}

fn find_removal(
    caster: &dto::Unit,
    target: &dto::Unit,
    spell_id: u32,
    committed_events: &Vec<Event>,
    timestamp: u64,
    next_timestamp: u64,
    armory: &Armory,
    server_id: u32,
    summons: &Table<u64>,
) -> (r: Result<(u32, Vec<u32>), EventParseFailureAction>)
    ensures
        match r {
            Ok((cause, targets)) => spec_find_removal(
                *caster,
                *target,
                spell_id,
                events_view(committed_events@),
                timestamp,
                next_timestamp,
                *armory,
                server_id,
                summons@,
            ) == Ok::<(u32, Seq<u32>), EventParseFailureAction>((cause, targets@)),
            Err(action) => spec_find_removal(
                *caster,
                *target,
                spell_id,
                events_view(committed_events@),
                timestamp,
                next_timestamp,
                *armory,
                server_id,
                summons@,
            ) == Err::<(u32, Seq<u32>), EventParseFailureAction>(action),
        },
{
    let by = match caster.to_unit(armory, server_id, summons) {
        Ok(unit) => unit,
        Err(_) => {
            return Err(EventParseFailureAction::DiscardFirst);
        },
    };
    let on = match target.to_unit(armory, server_id, summons) {
        Ok(unit) => unit,
        Err(_) => {
            return Err(EventParseFailureAction::DiscardFirst);
        },
    };
    match find_last_cast(committed_events, &by, None, timestamp) {
        Some(cause) => Ok((cause, find_aura_ids(committed_events, &on, spell_id, timestamp))),
        None => Err(missed(timestamp, next_timestamp)),
    }
}

/// Finds the cast that `interrupt` stopped among `committed_events`, the
/// log of the encounter: the most recent cast of the interrupted spell by
/// `subject`, the interrupted unit, no more than the lookback window
/// before `timestamp`.
///
/// Gives the id of that cast with the id of the spell.  Where there is no
/// such cast the interrupt waits until `next_timestamp` shows that the
/// window has passed, and is dropped then.
pub fn try_parse_interrupt(
    interrupt: &dto::Interrupt,
    committed_events: &Vec<Event>,
    timestamp: u64,
    next_timestamp: u64,
    subject: &Unit,
) -> (r: Result<(u32, u32), EventParseFailureAction>)
    ensures
        r == spec_try_parse_interrupt(*interrupt, events_view(committed_events@), timestamp, next_timestamp, *subject),
{
    match find_last_cast(committed_events, subject, Some(interrupt.interrupted_spell_id), timestamp) {
        Some(cause) => Ok((cause, interrupt.interrupted_spell_id)),
        None => Err(missed(timestamp, next_timestamp)),
    }
}

/// Finds what `dispel` refers to among `committed_events`, the log of the
/// encounter: the most recent cast by the dispelling unit, and every
/// application of the dispelled aura on the target, each no more than the
/// lookback window before `timestamp`.
///
/// A dispel whose units do not resolve is dropped.  One that lacks its
/// cast or has no aura to point at waits until `next_timestamp` shows that
/// the window has passed, and is dropped then.
pub fn try_parse_dispel(
    dispel: &dto::Dispel,
    committed_events: &Vec<Event>,
    timestamp: u64,
    next_timestamp: u64,
    armory: &Armory,
    server_id: u32,
    summons: &Table<u64>,
) -> (r: Result<(u32, Vec<u32>), EventParseFailureAction>)
    ensures
        match r {
            Ok((cause, targets)) => spec_try_parse_dispel(
                *dispel,
                events_view(committed_events@),
                timestamp,
                next_timestamp,
                *armory,
                server_id,
                summons@,
            ) == Ok::<(u32, Seq<u32>), EventParseFailureAction>((cause, targets@)),
            Err(action) => spec_try_parse_dispel(
                *dispel,
                events_view(committed_events@),
                timestamp,
                next_timestamp,
                *armory,
                server_id,
                summons@,
            ) == Err::<(u32, Seq<u32>), EventParseFailureAction>(action),
        },
{
    match find_removal(
        &dispel.aura_caster,
        &dispel.target,
        dispel.dispelled_spell_id,
        committed_events,
        timestamp,
        next_timestamp,
        armory,
        server_id,
        summons,
    ) {
        Ok((cause, targets)) => if targets.len() >= 1 {
            Ok((cause, targets))
        } else {
            Err(missed(timestamp, next_timestamp))
        },
        Err(action) => Err(action),
    }
}

/// Finds what `spell_steal` refers to among `committed_events`, as
/// [`try_parse_dispel`] does for a dispel, but asks for exactly one
/// application of the stolen aura.
pub fn try_parse_spell_steal(
    spell_steal: &dto::SpellSteal,
    committed_events: &Vec<Event>,
    timestamp: u64,
    next_timestamp: u64,
    armory: &Armory,
    server_id: u32,
    summons: &Table<u64>,
) -> (r: Result<(u32, u32), EventParseFailureAction>)
    ensures
        r == spec_try_parse_spell_steal(
            *spell_steal,
            events_view(committed_events@),
            timestamp,
            next_timestamp,
            *armory,
            server_id,
            summons@,
        ),
{
    match find_removal(
        &spell_steal.aura_caster,
        &spell_steal.target,
        spell_steal.spell_id,
        committed_events,
        timestamp,
        next_timestamp,
        armory,
        server_id,
        summons,
    ) {
        Ok((cause, targets)) => if targets.len() == 1 {
            Ok((cause, targets[0]))
        } else {
            Err(missed(timestamp, next_timestamp))
        },
        Err(action) => Err(action),
    }
}

/// A cast that [`last_cast`] finds is an event of the log.
pub proof fn lemma_last_cast_is_committed(
    log: Seq<EventView>,
    caster: Unit,
    spell_id: Option<u32>,
    timestamp: u64,
    n: nat,
)
    requires
        n <= log.len(),
        last_cast(log, caster, spell_id, timestamp, n) is Some,
    ensures
        exists|i: int|
            0 <= i < n && (#[trigger] log[i]).id == last_cast(log, caster, spell_id, timestamp, n)->Some_0
                && is_cast_by(log[i], caster, spell_id, timestamp),
    decreases n,
{
    if is_cast_by(log[n - 1], caster, spell_id, timestamp) {
        assert(log[n - 1].id == last_cast(log, caster, spell_id, timestamp, n)->Some_0);
    } else {
        lemma_last_cast_is_committed(log, caster, spell_id, timestamp, (n - 1) as nat);
    }
}

/// Every id that [`aura_ids`] gives is that of an aura application of the
/// log.
pub proof fn lemma_aura_ids_are_committed(log: Seq<EventView>, target: Unit, spell_id: u32, timestamp: u64, n: nat)
    requires
        n <= log.len(),
    ensures
        forall|k: int|
            0 <= k < aura_ids(log, target, spell_id, timestamp, n).len() ==> exists|i: int|
                0 <= i < n && (#[trigger] log[i]).id == #[trigger] aura_ids(log, target, spell_id, timestamp, n)[k]
                    && is_aura_on(log[i], target, spell_id, timestamp),
    decreases n,
{
    if n > 0 {
        lemma_aura_ids_are_committed(log, target, spell_id, timestamp, (n - 1) as nat);
        let ids = aura_ids(log, target, spell_id, timestamp, n);
        let before = aura_ids(log, target, spell_id, timestamp, (n - 1) as nat);
        assert forall|k: int| 0 <= k < ids.len() implies exists|i: int|
            0 <= i < n && (#[trigger] log[i]).id == #[trigger] ids[k] && is_aura_on(
                log[i],
                target,
                spell_id,
                timestamp,
            ) by {
            if k < before.len() {
                assert(ids[k] == before[k]);
                let i = choose|i: int|
                    0 <= i < n - 1 && (#[trigger] log[i]).id == before[k] && is_aura_on(
                        log[i],
                        target,
                        spell_id,
                        timestamp,
                    );
                assert(log[i].id == ids[k]);
            } else {
                assert(log[n - 1].id == ids[k]);
            }
        }
    }
}

} // verus!
