//! The frames of the ingest side.
//!
//! A frame is one message as the game server sends it: the API version in
//! its first byte, the number of the message type in its second, and the
//! GUIDs of the units it is about at fixed places further on.  Before a
//! frame leaves the ingest side every GUID in it is replaced by a salted
//! one.  Salting is up to the caller; this module finds the GUIDs and puts
//! the salted ones in their place.
use vstd::prelude::*;
use vstd::bytes::{
    spec_u32_from_le_bytes,
    spec_u64_from_le_bytes,
    spec_u64_to_le_bytes,
    u32_from_le_bytes,
    u64_from_le_bytes,
    u64_to_le_bytes,
};
use vstd::slice::slice_subrange;

verus! {

/// The only API version that is understood.
pub const API_VERSION: u8 = 0;

/// The number of a melee hit.
pub const MESSAGE_TYPE_MELEE_DAMAGE: u8 = 0;

/// The number of a spell hit.
pub const MESSAGE_TYPE_SPELL_DAMAGE: u8 = 1;

/// The number of a heal.
pub const MESSAGE_TYPE_HEAL: u8 = 2;

/// The number of a death.
pub const MESSAGE_TYPE_DEATH: u8 = 3;

/// The number of an aura application.
pub const MESSAGE_TYPE_AURA_APPLICATION: u8 = 4;

/// The number of a dispel.
pub const MESSAGE_TYPE_DISPEL: u8 = 5;

/// The number of a spell steal.
pub const MESSAGE_TYPE_SPELL_STEAL: u8 = 6;

/// The number of an interrupt.
pub const MESSAGE_TYPE_INTERRUPT: u8 = 7;

/// The number of a position report.
pub const MESSAGE_TYPE_POSITION: u8 = 8;

/// The number of a change of combat state.
pub const MESSAGE_TYPE_COMBAT_STATE: u8 = 9;

/// The number of a power report.
pub const MESSAGE_TYPE_POWER: u8 = 10;

/// The number of a loot.
pub const MESSAGE_TYPE_LOOT: u8 = 11;

/// The number of a spell cast.
pub const MESSAGE_TYPE_SPELL_CAST: u8 = 12;

/// The number of a change of threat.
pub const MESSAGE_TYPE_THREAT: u8 = 13;

/// The number of a miscellaneous unit event.
pub const MESSAGE_TYPE_EVENT: u8 = 14;

/// The number of a summon.
pub const MESSAGE_TYPE_SUMMON: u8 = 15;

/// The number of the end of a rated arena match.
pub const MESSAGE_TYPE_INSTANCE_PVP_END_RATED_ARENA: u8 = 20;

/// Where a frame carries its GUIDs.
#[derive(Clone, Copy, Debug, PartialEq, Eq)]
pub enum GuidFields {
    /// One GUID at byte 10.
    One,
    /// Two GUIDs at bytes 10 and 18.
    Two,
    /// Three GUIDs at bytes 10, 18 and 26.
    Three,
    /// One GUID at byte 19, behind map, instance and difficulty.
    Position,
    /// Two team ids of four bytes each from byte 19 on, which leave the
    /// ingest side widened to eight bytes each.
    TeamIds,
}

/// Where a message of type `message_type` carries its GUIDs; `None` for a
/// type that carries none or is not known.
pub open spec fn spec_guid_fields(message_type: u8) -> Option<GuidFields> {
    if message_type == MESSAGE_TYPE_COMBAT_STATE || message_type == MESSAGE_TYPE_POWER || message_type
        == MESSAGE_TYPE_LOOT || message_type == MESSAGE_TYPE_EVENT || message_type == MESSAGE_TYPE_INTERRUPT {
        Some(GuidFields::One)
    } else if message_type == MESSAGE_TYPE_MELEE_DAMAGE || message_type == MESSAGE_TYPE_SPELL_DAMAGE
        || message_type == MESSAGE_TYPE_HEAL || message_type == MESSAGE_TYPE_DEATH || message_type
        == MESSAGE_TYPE_SPELL_CAST || message_type == MESSAGE_TYPE_THREAT || message_type == MESSAGE_TYPE_SUMMON
        || message_type == MESSAGE_TYPE_AURA_APPLICATION {
        Some(GuidFields::Two)
    } else if message_type == MESSAGE_TYPE_DISPEL || message_type == MESSAGE_TYPE_SPELL_STEAL {
        Some(GuidFields::Three)
    } else if message_type == MESSAGE_TYPE_POSITION {
        Some(GuidFields::Position)
    } else if message_type == MESSAGE_TYPE_INSTANCE_PVP_END_RATED_ARENA {
        Some(GuidFields::TeamIds)
    } else {
        None
    }
}

impl GuidFields {
    /// How many GUIDs the frame carries.
    pub open spec fn count(self) -> nat {
        match self {
            GuidFields::One => 1,
            GuidFields::Two => 2,
            GuidFields::Three => 3,
            GuidFields::Position => 1,
            GuidFields::TeamIds => 2,
        }
    }

    /// The byte at which GUID number `i` starts in the frame as it leaves.
    pub open spec fn offset(self, i: int) -> int {
        match self {
            GuidFields::Position => 19,
            GuidFields::TeamIds => 19 + 8 * i,
            _ => 10 + 8 * i,
        }
    }

    /// How long a frame has to be at least to hold its GUIDs as it
    /// arrives.
    pub open spec fn min_len(self) -> nat {
        match self {
            GuidFields::One => 18,
            GuidFields::Two => 26,
            GuidFields::Three => 34,
            GuidFields::Position => 27,
            GuidFields::TeamIds => 27,
        }
    }
}

/// Where `frame` carries its GUIDs; `None` for a frame of another API
/// version or of a type without GUIDs, and for one that is too short.
pub open spec fn spec_frame_fields(frame: Seq<u8>) -> Option<GuidFields> {
    if frame.len() < 2 || frame[0] != API_VERSION {
        None
    } else {
        match spec_guid_fields(frame[1]) {
            Some(fields) => if frame.len() >= fields.min_len() {
                Some(fields)
            } else {
                None
            },
            None => None,
        }
    }
}

/// The eight bytes of `frame` from `at` on, read as a little-endian number.
pub open spec fn spec_read_u64(frame: Seq<u8>, at: int) -> u64 {
    spec_u64_from_le_bytes(frame.subrange(at, at + 8))
}

/// The four bytes of `frame` from `at` on, read as a little-endian number.
pub open spec fn spec_read_u32(frame: Seq<u8>, at: int) -> u32 {
    spec_u32_from_le_bytes(frame.subrange(at, at + 4))
}

/// `frame` with the eight bytes from `at` on replaced by `value` in
/// little-endian order.
pub open spec fn spec_write_u64(frame: Seq<u8>, at: int, value: u64) -> Seq<u8> {
    frame.subrange(0, at) + spec_u64_to_le_bytes(value) + frame.subrange(at + 8, frame.len() as int)
}

/// The first `n` GUIDs that `frame` carries in the places `fields`.  Both
/// team ids of a rated arena match are taken from the four bytes of the
/// first.
pub open spec fn spec_guids(frame: Seq<u8>, fields: GuidFields, n: nat) -> Seq<u64>
    decreases n,
{
    if n == 0 {
        Seq::empty()
    } else {
        spec_guids(frame, fields, (n - 1) as nat).push(
            match fields {
                GuidFields::TeamIds => spec_read_u32(frame, 19) as u64,
                _ => spec_read_u64(frame, fields.offset(n - 1)),
            },
        )
    }
}

/// The GUIDs that `frame` carries.
pub open spec fn spec_frame_guids(frame: Seq<u8>) -> Option<Seq<u64>> {
    match spec_frame_fields(frame) {
        Some(fields) => Some(spec_guids(frame, fields, fields.count())),
        None => None,
    }
}

/// A frame with two team ids, each widened from four bytes to eight by
/// four zero bytes behind it.
pub open spec fn spec_widened(frame: Seq<u8>) -> Seq<u8> {
    frame.subrange(0, 23) + seq![0u8, 0u8, 0u8, 0u8] + frame.subrange(23, 27) + seq![0u8, 0u8, 0u8, 0u8]
        + frame.subrange(27, frame.len() as int)
}

/// `frame` with the first `n` of the values `salted` written to the
/// places `fields`.
pub open spec fn spec_written(frame: Seq<u8>, fields: GuidFields, salted: Seq<u64>, n: nat) -> Seq<u8>
    decreases n,
{
    if n == 0 {
        frame
    } else {
        spec_write_u64(spec_written(frame, fields, salted, (n - 1) as nat), fields.offset(n - 1), salted[n - 1])
    }
}

/// `frame` as it leaves the ingest side, with `salted` in place of its
/// GUIDs.  A frame that carries no GUIDs, or not as many as `salted`
/// holds, stays as it is.
pub open spec fn spec_replace_guids(frame: Seq<u8>, salted: Seq<u64>) -> Seq<u8> {
    match spec_frame_fields(frame) {
        Some(fields) => if salted.len() == fields.count() {
            spec_written(
                if fields is TeamIds {
                    spec_widened(frame)
                } else {
                    frame
                },
                fields,
                salted,
                fields.count(),
            )
        } else {
            frame
        },
        None => frame,
    }
}

/// Where a message of type `message_type` carries its GUIDs.
pub fn guid_fields(message_type: u8) -> (r: Option<GuidFields>)
    ensures
        r == spec_guid_fields(message_type),
{
    if message_type == MESSAGE_TYPE_COMBAT_STATE || message_type == MESSAGE_TYPE_POWER || message_type
        == MESSAGE_TYPE_LOOT || message_type == MESSAGE_TYPE_EVENT || message_type == MESSAGE_TYPE_INTERRUPT {
        Some(GuidFields::One)
    } else if message_type == MESSAGE_TYPE_MELEE_DAMAGE || message_type == MESSAGE_TYPE_SPELL_DAMAGE
        || message_type == MESSAGE_TYPE_HEAL || message_type == MESSAGE_TYPE_DEATH || message_type
        == MESSAGE_TYPE_SPELL_CAST || message_type == MESSAGE_TYPE_THREAT || message_type == MESSAGE_TYPE_SUMMON
        || message_type == MESSAGE_TYPE_AURA_APPLICATION {
        Some(GuidFields::Two)
    } else if message_type == MESSAGE_TYPE_DISPEL || message_type == MESSAGE_TYPE_SPELL_STEAL {
        Some(GuidFields::Three)
    } else if message_type == MESSAGE_TYPE_POSITION {
        Some(GuidFields::Position)
    } else if message_type == MESSAGE_TYPE_INSTANCE_PVP_END_RATED_ARENA {
        Some(GuidFields::TeamIds)
    } else {
        None
    }
}

fn frame_fields(frame: &Vec<u8>) -> (r: Option<GuidFields>)
    ensures
        r == spec_frame_fields(frame@),
{
    if frame.len() < 2 || frame[0] != API_VERSION {
        return None;
    }
    match guid_fields(frame[1]) {
        Some(fields) => {
            let min_len: usize = match fields {
                GuidFields::One => 18,
                GuidFields::Two => 26,
                GuidFields::Three => 34,
                GuidFields::Position => 27,
                GuidFields::TeamIds => 27,
            };
            if frame.len() >= min_len {
                Some(fields)
            } else {
                None
            }
        },
        None => None,
    }
}

fn count_of(fields: GuidFields) -> (n: usize)
    ensures
        n == fields.count(),
{
    match fields {
        GuidFields::One => 1,
        GuidFields::Two => 2,
        GuidFields::Three => 3,
        GuidFields::Position => 1,
        GuidFields::TeamIds => 2,
    }
}

fn offset_of(fields: GuidFields, i: usize) -> (at: usize)
    requires
        i < fields.count(),
    ensures
        at == fields.offset(i as int),
{
    match fields {
        GuidFields::Position => 19,
        GuidFields::TeamIds => 19 + 8 * i,
        _ => 10 + 8 * i,
    }
}

/// Reads the eight bytes of `frame` from `at` on as a little-endian
/// number.
pub fn read_u64(frame: &Vec<u8>, at: usize) -> (value: u64)
    requires
        at + 8 <= frame@.len(),
    ensures
        value == spec_read_u64(frame@, at as int),
{
    let len = frame.len();
    assert(at + 8 <= len);
    u64_from_le_bytes(slice_subrange(frame.as_slice(), at, at + 8))
}

/// Reads the four bytes of `frame` from `at` on as a little-endian number.
pub fn read_u32(frame: &Vec<u8>, at: usize) -> (value: u32)
    requires
        at + 4 <= frame@.len(),
    ensures
        value == spec_read_u32(frame@, at as int),
{
    let len = frame.len();
    assert(at + 4 <= len);
    u32_from_le_bytes(slice_subrange(frame.as_slice(), at, at + 4))
}

/// Writes `value` over the eight bytes of `frame` from `at` on, in
/// little-endian order.
pub fn write_u64(frame: &mut Vec<u8>, at: usize, value: u64)
    requires
        at + 8 <= old(frame)@.len(),
    ensures
        final(frame)@ == spec_write_u64(old(frame)@, at as int, value),
        final(frame)@.len() == old(frame)@.len(),
{
    let bytes = u64_to_le_bytes(value);
    let len = frame.len();
    let mut i: usize = 0;
    while i < 8
        invariant
            i <= 8,
            at + 8 <= frame@.len(),
            len == frame@.len(),
            bytes@.len() == 8,
            frame@.len() == old(frame)@.len(),
            forall|j: int| 0 <= j < at || at + i <= j < frame@.len() ==> frame@[j] == old(frame)@[j],
            forall|j: int| 0 <= j < i ==> frame@[at + j] == bytes@[j],
        decreases 8 - i,
    {
        frame.set(at + i, bytes[i]);
        i += 1;
    }
    assert(frame@ =~= spec_write_u64(old(frame)@, at as int, value));
}

/// The GUIDs that `frame` carries, in the order in which they stand in
/// it.  Gives `None` for a frame of another API version or of a type
/// without GUIDs, and for one that is too short to hold them.
pub fn frame_guids(frame: &Vec<u8>) -> (r: Option<Vec<u64>>)
    ensures
        match r {
            Some(guids) => spec_frame_guids(frame@) == Some(guids@),
            None => spec_frame_guids(frame@) is None,
        },
{
    let fields = match frame_fields(frame) {
        Some(fields) => fields,
        None => {
            return None;
        },
    };
    let n = count_of(fields);
    let mut guids: Vec<u64> = Vec::new();
    let mut i: usize = 0;
    while i < n
        invariant
            i <= n,
            n == fields.count(),
            frame@.len() >= fields.min_len(),
            guids@ == spec_guids(frame@, fields, i as nat),
        decreases n - i,
    {
        let guid = match fields {
            GuidFields::TeamIds => read_u32(frame, 19) as u64,
            _ => read_u64(frame, offset_of(fields, i)),
        };
        guids.push(guid);
        i += 1;
    }
    Some(guids)
}

fn widen(frame: &mut Vec<u8>)
    requires
        old(frame)@.len() >= 27,
    ensures
        final(frame)@ == spec_widened(old(frame)@),
{
    let mut i: usize = 0;
    while i < 4
        invariant
            i <= 4,
            old(frame)@.len() >= 27,
            frame@ == old(frame)@.subrange(0, 23) + Seq::new(i as nat, |j: int| 0u8) + old(frame)@.subrange(
                23,
                old(frame)@.len() as int,
            ),
        decreases 4 - i,
    {
        frame.insert(23, 0);
        i += 1;
        assert(frame@ =~= old(frame)@.subrange(0, 23) + Seq::new(i as nat, |j: int| 0u8) + old(frame)@.subrange(
            23,
            old(frame)@.len() as int,
        ));
    }
    let ghost middle = frame@;
    let mut k: usize = 0;
    while k < 4
        invariant
            k <= 4,
            middle.len() >= 31,
            frame@ == middle.subrange(0, 31) + Seq::new(k as nat, |j: int| 0u8) + middle.subrange(
                31,
                middle.len() as int,
            ),
        decreases 4 - k,
    {
        frame.insert(31, 0);
        k += 1;
        assert(frame@ =~= middle.subrange(0, 31) + Seq::new(k as nat, |j: int| 0u8) + middle.subrange(
            31,
            middle.len() as int,
        ));
    }
    assert(frame@ =~= spec_widened(old(frame)@));
}

/// Puts `salted` in place of the GUIDs of `frame`, in the order in which
/// they stand in it; the team ids of a rated arena match are widened to
/// eight bytes each for that.  Gives `false`, and leaves the frame as it
/// is, where it carries no GUIDs or not as many as `salted` holds.
pub fn replace_guids(frame: &mut Vec<u8>, salted: &Vec<u64>) -> (done: bool)
    ensures
        final(frame)@ == spec_replace_guids(old(frame)@, salted@),
        done == (spec_frame_fields(old(frame)@) matches Some(fields) && salted@.len() == fields.count()),
{
    let fields = match frame_fields(frame) {
        Some(fields) => fields,
        None => {
            return false;
        },
    };
    let n = count_of(fields);
    if salted.len() != n {
        return false;
    }
    match fields {
        GuidFields::TeamIds => {
            widen(frame);
        },
        _ => {},
    }
    let ghost base = frame@;
    let mut i: usize = 0;
    while i < n
        invariant
            i <= n,
            n == fields.count(),
            salted@.len() == n,
            frame@.len() == base.len(),
            base.len() >= fields.min_len(),
            fields is TeamIds ==> base.len() >= 35,
            frame@ == spec_written(base, fields, salted@, i as nat),
        decreases n - i,
    {
        write_u64(frame, offset_of(fields, i), salted[i]);
        i += 1;
    }
    true
}

} // verus!
