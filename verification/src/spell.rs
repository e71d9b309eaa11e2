//! The spell assembler.
//!
//! The game server reports a spell piece by piece: the cast, then one
//! message for each hit, heal and threat change that follows from it.  The
//! assembler folds the pieces that one caster sent within the assembly
//! window back into one spell.
use vstd::prelude::*;
use crate::armory::Armory;
use crate::domain_value::{DamageComponent, EventParseFailureAction, Heal, SpellCast, SpellCastView, Threat};
use crate::dto;
use crate::dto::{Message, MessageType};
use crate::map_unit::{spec_to_unit_opt, to_unit_opt};
use crate::table::{Entry, Table};

verus! {

/// For how many milliseconds after its first message a spell takes up
/// further messages.
pub const SPELL_ASSEMBLY_WINDOW: u64 = 400;

/// The sum of two threat changes, held to the range of `i32`.
pub open spec fn spec_add_threat(a: i32, b: i32) -> i32 {
    if a + b > i32::MAX {
        i32::MAX
    } else if a + b < i32::MIN {
        i32::MIN
    } else {
        (a + b) as i32
    }
}

/// The sum of two threat changes, held to the range of `i32`.
pub fn add_threat(a: i32, b: i32) -> (r: i32)
    ensures
        r == spec_add_threat(a, b),
{
    let sum: i64 = a as i64 + b as i64;
    if sum > i32::MAX as i64 {
        i32::MAX
    } else if sum < i32::MIN as i64 {
        i32::MIN
    } else {
        sum as i32
    }
}

/// Whether `m` belongs to the spell that `head` opened: it has the same
/// subject and falls into the assembly window.
pub open spec fn in_window(head: Message, m: Message) -> bool {
    &&& m.spec_subject_id() == head.spec_subject_id()
    &&& head.timestamp <= m.timestamp <= head.timestamp + SPELL_ASSEMBLY_WINDOW
}

/// Whether the arrival of `next` closes the spell that `head` opened: it
/// lies beyond the window, has another subject, or is a cast itself.
pub open spec fn spec_assembly_complete(head: Message, next: Message) -> bool {
    ||| next.timestamp > head.timestamp + SPELL_ASSEMBLY_WINDOW
    ||| next.spec_subject_id() != head.spec_subject_id()
    ||| next.message_type is SpellCast
}

/// The component that a hit contributes.
pub open spec fn spec_damage_component(
    hit: dto::DamageDone,
    armory: Armory,
    server_id: u32,
    summons: Seq<Entry<u64>>,
) -> DamageComponent {
    DamageComponent {
        victim: spec_to_unit_opt(Some(hit.victim), armory, server_id, summons),
        amount: hit.amount,
        hit_mask: hit.hit_mask,
        blocked: hit.blocked,
        resisted: hit.resisted,
        absorbed: hit.absorbed,
    }
}

/// The healing so far with one more heal message.
pub open spec fn spec_add_heal(
    so_far: Option<Heal>,
    heal: dto::HealDone,
    armory: Armory,
    server_id: u32,
    summons: Seq<Entry<u64>>,
) -> Heal {
    match so_far {
        Some(h) => Heal {
            target: h.target,
            amount: h.amount.saturating_add(heal.amount),
            overheal: h.overheal.saturating_add(heal.overheal),
            absorb: h.absorb.saturating_add(heal.absorb),
        },
        None => Heal {
            target: spec_to_unit_opt(Some(heal.target), armory, server_id, summons),
            amount: heal.amount,
            overheal: heal.overheal,
            absorb: heal.absorb,
        },
    }
}

/// The threat so far with one more threat message.
pub open spec fn spec_add_threat_message(
    so_far: Option<Threat>,
    threat: dto::Threat,
    armory: Armory,
    server_id: u32,
    summons: Seq<Entry<u64>>,
) -> Threat {
    match so_far {
        Some(t) => Threat { target: t.target, amount: spec_add_threat(t.amount, threat.amount) },
        None => Threat {
            target: spec_to_unit_opt(Some(threat.target), armory, server_id, summons),
            amount: threat.amount,
        },
    }
}

/// The spell that `head` opens, before any message has contributed to it.
pub open spec fn spec_spell_start(head: Message, armory: Armory, server_id: u32, summons: Seq<Entry<u64>>) -> SpellCastView {
    let (spell_id, target) = match head.message_type {
        MessageType::SpellCast(cast) => (cast.spell_id, cast.target),
        MessageType::MeleeDamage(hit) => (
            match hit.spell_id {
                Some(id) => id,
                None => 0u32,
            },
            Some(hit.victim),
        ),
        MessageType::SpellDamage(hit) => (
            match hit.spell_id {
                Some(id) => id,
                None => 0u32,
            },
            Some(hit.victim),
        ),
        MessageType::Heal(heal) => (heal.spell_id, Some(heal.target)),
        MessageType::Threat(threat) => (
            match threat.spell_id {
                Some(id) => id,
                None => 0u32,
            },
            Some(threat.target),
        ),
        _ => (0u32, None),
    };
    SpellCastView {
        spell_id,
        target: spec_to_unit_opt(target, armory, server_id, summons),
        hit_mask: 0,
        damages: Seq::empty(),
        heal: None,
        threat: None,
    }
}

/// The spell `spell`, opened by `head`, after the buffered message `m` has
/// been looked at.  A message outside the window leaves it as it is, and
/// so does one that is neither hit, heal nor threat.
pub open spec fn spec_absorb(
    spell: SpellCastView,
    head: Message,
    m: Message,
    armory: Armory,
    server_id: u32,
    summons: Seq<Entry<u64>>,
) -> SpellCastView {
    if !in_window(head, m) {
        spell
    } else {
        match m.message_type {
            MessageType::MeleeDamage(hit) => SpellCastView {
                hit_mask: spell.hit_mask | hit.hit_mask,
                damages: spell.damages.push(spec_damage_component(hit, armory, server_id, summons)),
                ..spell
            },
            MessageType::SpellDamage(hit) => SpellCastView {
                hit_mask: spell.hit_mask | hit.hit_mask,
                damages: spell.damages.push(spec_damage_component(hit, armory, server_id, summons)),
                ..spell
            },
            MessageType::Heal(heal) => SpellCastView {
                heal: Some(spec_add_heal(spell.heal, heal, armory, server_id, summons)),
                ..spell
            },
            MessageType::Threat(threat) => SpellCastView {
                threat: Some(spec_add_threat_message(spell.threat, threat, armory, server_id, summons)),
                ..spell
            },
            _ => spell,
        }
    }
}

/// The spell that the first message of `buffer` opens, with the first `n`
/// messages of the buffer looked at in their order of arrival.
pub open spec fn spec_assemble(
    buffer: Seq<Message>,
    n: nat,
    armory: Armory,
    server_id: u32,
    summons: Seq<Entry<u64>>,
) -> SpellCastView
    decreases n,
{
    if n == 0 {
        spec_spell_start(buffer[0], armory, server_id, summons)
    } else {
        spec_absorb(
            spec_assemble(buffer, (n - 1) as nat, armory, server_id, summons),
            buffer[0],
            buffer[n - 1],
            armory,
            server_id,
            summons,
        )
    }
}

/// What the assembler makes of `buffer` when `next` arrives.
pub open spec fn spec_try_parse_spell_cast(
    buffer: Seq<Message>,
    next: Message,
    armory: Armory,
    server_id: u32,
    summons: Seq<Entry<u64>>,
) -> Result<SpellCastView, EventParseFailureAction> {
    if buffer.len() == 0 {
        Err(EventParseFailureAction::DiscardAll)
    } else if !buffer[0].message_type.spec_is_spell_family() {
        Err(EventParseFailureAction::DiscardFirst)
    } else if !spec_assembly_complete(buffer[0], next) {
        Err(EventParseFailureAction::Wait)
    } else {
        Ok(spec_assemble(buffer, buffer.len(), armory, server_id, summons))
    }
}

/// Whether the arrival of `next` closes the spell that `head` opened.
pub fn assembly_complete(head: &Message, next: &Message) -> (b: bool)
    ensures
        b == spec_assembly_complete(*head, *next),
{
    let beyond = next.timestamp > head.timestamp && next.timestamp - head.timestamp > SPELL_ASSEMBLY_WINDOW;
    let same_subject = match (next.subject_id(), head.subject_id()) {
        (Some(a), Some(b)) => a == b,
        (None, None) => true,
        _ => false,
    };
    let is_cast = match next.message_type {
        MessageType::SpellCast(_) => true,
        _ => false,
    };
    beyond || !same_subject || is_cast
}

fn is_in_window(head: &Message, m: &Message) -> (b: bool)
    ensures
        b == in_window(*head, *m),
{
    let same_subject = match (m.subject_id(), head.subject_id()) {
        (Some(a), Some(b)) => a == b,
        (None, None) => true,
        _ => false,
    };
    same_subject && head.timestamp <= m.timestamp && m.timestamp - head.timestamp <= SPELL_ASSEMBLY_WINDOW
}

fn spell_start(head: &Message, armory: &Armory, server_id: u32, summons: &Table<u64>) -> (spell: SpellCast)
    ensures
        spell@ == spec_spell_start(*head, *armory, server_id, summons@),
{
    let (spell_id, target): (u32, Option<dto::Unit>) = match head.message_type {
        MessageType::SpellCast(cast) => (cast.spell_id, cast.target),
        MessageType::MeleeDamage(hit) => (
            match hit.spell_id {
                Some(id) => id,
                None => 0u32,
            },
            Some(hit.victim),
        ),
        MessageType::SpellDamage(hit) => (
            match hit.spell_id {
                Some(id) => id,
                None => 0u32,
            },
            Some(hit.victim),
        ),
        MessageType::Heal(heal) => (heal.spell_id, Some(heal.target)),
        MessageType::Threat(threat) => (
            match threat.spell_id {
                Some(id) => id,
                None => 0u32,
            },
            Some(threat.target),
        ),
        _ => (0u32, None),
    };
    SpellCast {
        spell_id,
        target: to_unit_opt(target, armory, server_id, summons),
        hit_mask: 0,
        damages: Vec::new(),
        heal: None,
        threat: None,
    }
}

fn absorb(spell: &mut SpellCast, head: &Message, m: &Message, armory: &Armory, server_id: u32, summons: &Table<u64>)
    ensures
        final(spell)@ == spec_absorb(old(spell)@, *head, *m, *armory, server_id, summons@),
{
    if !is_in_window(head, m) {
        return ;
    }
    match m.message_type {
        MessageType::MeleeDamage(hit) | MessageType::SpellDamage(hit) => {
            spell.hit_mask = spell.hit_mask | hit.hit_mask;
            spell.damages.push(
                DamageComponent {
                    victim: to_unit_opt(Some(hit.victim), armory, server_id, summons),
                    amount: hit.amount,
                    hit_mask: hit.hit_mask,
                    blocked: hit.blocked,
                    resisted: hit.resisted,
                    absorbed: hit.absorbed,
                },
            );
        },
        MessageType::Heal(heal) => {
            let sum = match spell.heal {
                Some(h) => Heal {
                    target: h.target,
                    amount: h.amount.saturating_add(heal.amount),
                    overheal: h.overheal.saturating_add(heal.overheal),
                    absorb: h.absorb.saturating_add(heal.absorb),
                },
                None => Heal {
                    target: to_unit_opt(Some(heal.target), armory, server_id, summons),
                    amount: heal.amount,
                    overheal: heal.overheal,
                    absorb: heal.absorb,
                },
            };
            spell.heal = Some(sum);
        },
        MessageType::Threat(threat) => {
            let sum = match spell.threat {
                Some(t) => Threat { target: t.target, amount: add_threat(t.amount, threat.amount) },
                None => Threat {
                    target: to_unit_opt(Some(threat.target), armory, server_id, summons),
                    amount: threat.amount,
                },
            };
            spell.threat = Some(sum);
        },
        _ => {},
    }
}

/// Assembles the spell that the first message of `non_committed_event`
/// opens, once `next_message` shows that it is complete.
///
/// Gives `Wait` while further messages may still belong to the spell,
/// `DiscardFirst` where the first message opens no spell, and `DiscardAll`
/// for an empty buffer.
pub fn try_parse_spell_cast(
    armory: &Armory,
    server_id: u32,
    summons: &Table<u64>,
    non_committed_event: &Vec<Message>,
    next_message: &Message,
) -> (r: Result<SpellCast, EventParseFailureAction>)
    ensures
        match r {
            Ok(spell) => spec_try_parse_spell_cast(non_committed_event@, *next_message, *armory, server_id, summons@)
                == Ok::<SpellCastView, EventParseFailureAction>(spell@),
            Err(action) => spec_try_parse_spell_cast(
                non_committed_event@,
                *next_message,
                *armory,
                server_id,
                summons@,
            ) == Err::<SpellCastView, EventParseFailureAction>(action),
        },
{
    if non_committed_event.len() == 0 {
        return Err(EventParseFailureAction::DiscardAll);
    }
    let head = non_committed_event[0];
    if !head.message_type.is_spell_family() {
        return Err(EventParseFailureAction::DiscardFirst);
    }
    if !assembly_complete(&head, next_message) {
        return Err(EventParseFailureAction::Wait);
    }
    let mut spell = spell_start(&head, armory, server_id, summons);
    let mut i: usize = 0;
    while i < non_committed_event.len()
        invariant
            i <= non_committed_event.len(),
            non_committed_event.len() > 0,
            head == non_committed_event@[0],
            spell@ == spec_assemble(non_committed_event@, i as nat, *armory, server_id, summons@),
        decreases non_committed_event.len() - i,
    {
        let m = non_committed_event[i];
        absorb(&mut spell, &head, &m, armory, server_id, summons);
        i += 1;
    }
    Ok(spell)
}

/// A message outside the window contributes nothing: the spell assembled
/// from a buffer is the same with and without such a message, wherever
/// behind the first message it stands.
pub proof fn lemma_outside_window_contributes_nothing(
    buffer: Seq<Message>,
    k: int,
    m: Message,
    armory: Armory,
    server_id: u32,
    summons: Seq<Entry<u64>>,
)
    requires
        1 <= k <= buffer.len(),
        !in_window(buffer[0], m),
    ensures
        spec_assemble(buffer.insert(k, m), (buffer.len() + 1) as nat, armory, server_id, summons) == spec_assemble(
            buffer,
            buffer.len(),
            armory,
            server_id,
            summons,
        ),
{
    let longer = buffer.insert(k, m);
    assert(longer[0] == buffer[0]);
    lemma_assemble_prefix(buffer, longer, k as nat, armory, server_id, summons);
    lemma_assemble_shifted(buffer, longer, k, buffer.len(), m, armory, server_id, summons);
}

/// Two buffers that agree on their first `n` messages assemble alike up
/// to there.
proof fn lemma_assemble_prefix(
    a: Seq<Message>,
    b: Seq<Message>,
    n: nat,
    armory: Armory,
    server_id: u32,
    summons: Seq<Entry<u64>>,
)
    requires
        a[0] == b[0],
        forall|i: int| 0 <= i < n ==> a[i] == b[i],
    ensures
        spec_assemble(a, n, armory, server_id, summons) == spec_assemble(b, n, armory, server_id, summons),
    decreases n,
{
    if n > 0 {
        lemma_assemble_prefix(a, b, (n - 1) as nat, armory, server_id, summons);
    }
}

proof fn lemma_assemble_shifted(
    buffer: Seq<Message>,
    longer: Seq<Message>,
    k: int,
    n: nat,
    m: Message,
    armory: Armory,
    server_id: u32,
    summons: Seq<Entry<u64>>,
)
    requires
        1 <= k <= n <= buffer.len(),
        longer == buffer.insert(k, m),
        !in_window(buffer[0], m),
    ensures
        spec_assemble(longer, (n + 1) as nat, armory, server_id, summons) == spec_assemble(
            buffer,
            n,
            armory,
            server_id,
            summons,
        ),
    decreases n - k,
{
    assert(longer[0] == buffer[0]);
    if n == k {
        lemma_assemble_prefix(buffer, longer, k as nat, armory, server_id, summons);
        assert(longer[k] == m);
    } else {
        lemma_assemble_shifted(buffer, longer, k, (n - 1) as nat, m, armory, server_id, summons);
        assert(longer[n as int] == buffer[n - 1]);
    }
}

/// The damage component that `m` contributes to the spell that `head`
/// opened: that of a hit within the window, and none for any other
/// message.
pub open spec fn spec_hit_in_window(
    head: Message,
    m: Message,
    armory: Armory,
    server_id: u32,
    summons: Seq<Entry<u64>>,
) -> Option<DamageComponent> {
    if !in_window(head, m) {
        None
    } else {
        match m.message_type {
            MessageType::MeleeDamage(hit) => Some(spec_damage_component(hit, armory, server_id, summons)),
            MessageType::SpellDamage(hit) => Some(spec_damage_component(hit, armory, server_id, summons)),
            _ => None,
        }
    }
}

/// Every hit within the window contributes: the damage components of the
/// assembled spell are those of the hits of the buffer that fall into the
/// window, one for each and in their order of arrival.
pub proof fn lemma_damages_are_the_hits_in_window(
    buffer: Seq<Message>,
    n: nat,
    armory: Armory,
    server_id: u32,
    summons: Seq<Entry<u64>>,
)
    requires
        0 < buffer.len(),
        n <= buffer.len(),
    ensures
        spec_assemble(buffer, n, armory, server_id, summons).damages == buffer.take(n as int).filter_map(
            |m: Message| spec_hit_in_window(buffer[0], m, armory, server_id, summons),
        ),
    decreases n,
{
    let f = |m: Message| spec_hit_in_window(buffer[0], m, armory, server_id, summons);
    if n == 0 {
        assert(buffer.take(0).filter_map(f) =~= Seq::empty());
    } else {
        lemma_damages_are_the_hits_in_window(buffer, (n - 1) as nat, armory, server_id, summons);
        assert(buffer.take(n as int).drop_last() =~= buffer.take(n - 1));
        assert(buffer.take(n as int).last() == buffer[n - 1]);
        let before = spec_assemble(buffer, (n - 1) as nat, armory, server_id, summons).damages;
        match f(buffer[n - 1]) {
            Some(component) => {
                assert(before + seq![component] =~= before.push(component));
            },
            None => {},
        }
    }
}

/// The assembled spell has a heal exactly where a heal message of the
/// buffer falls into the window, and a threat exactly where a threat
/// message does.
pub proof fn lemma_heal_and_threat_come_from_the_window(
    buffer: Seq<Message>,
    n: nat,
    armory: Armory,
    server_id: u32,
    summons: Seq<Entry<u64>>,
)
    requires
        n <= buffer.len(),
    ensures
        spec_assemble(buffer, n, armory, server_id, summons).heal is Some <==> exists|i: int|
            0 <= i < n && in_window(buffer[0], #[trigger] buffer[i]) && buffer[i].message_type is Heal,
        spec_assemble(buffer, n, armory, server_id, summons).threat is Some <==> exists|i: int|
            0 <= i < n && in_window(buffer[0], #[trigger] buffer[i]) && buffer[i].message_type is Threat,
    decreases n,
{
    if n > 0 {
        lemma_heal_and_threat_come_from_the_window(buffer, (n - 1) as nat, armory, server_id, summons);
        let before = spec_assemble(buffer, (n - 1) as nat, armory, server_id, summons);
        let last = buffer[n - 1];
        if before.heal is Some {
            let i = choose|i: int|
                0 <= i < n - 1 && in_window(buffer[0], #[trigger] buffer[i]) && buffer[i].message_type is Heal;
            assert(in_window(buffer[0], buffer[i]) && buffer[i].message_type is Heal);
        }
        if before.threat is Some {
            let i = choose|i: int|
                0 <= i < n - 1 && in_window(buffer[0], #[trigger] buffer[i]) && buffer[i].message_type is Threat;
            assert(in_window(buffer[0], buffer[i]) && buffer[i].message_type is Threat);
        }
        if in_window(buffer[0], last) && last.message_type is Heal {
            assert(in_window(buffer[0], buffer[n - 1]) && buffer[n - 1].message_type is Heal);
        }
        if in_window(buffer[0], last) && last.message_type is Threat {
            assert(in_window(buffer[0], buffer[n - 1]) && buffer[n - 1].message_type is Threat);
        }
    }
}

} // verus!
