//! The armory: what is known of characters and arena teams.
//!
//! The correlator only reads it.  Records are small and are handed out by
//! value.
use vstd::prelude::*;

verus! {

/// A character of one server, with the id of its latest snapshot.
#[derive(Clone, Copy, Debug, PartialEq, Eq)]
pub struct CharacterRecord {
    pub server_id: u32,
    pub character_id: u32,
    pub last_history_id: Option<u32>,
}

/// An arena team of one server; `team_uid` is the id under which the game
/// server knows it, `id` the one under which it is stored.
#[derive(Clone, Copy, Debug, PartialEq, Eq)]
pub struct ArenaTeamRecord {
    pub id: u32,
    pub server_id: u32,
    pub team_uid: u64,
}

/// A guild as the game server reports it.
#[derive(Clone, Debug, PartialEq, Eq)]
pub struct GuildDto {
    pub server_uid: u64,
    pub name: String,
}

/// A guild of one server; `server_uid` is the id under which the game
/// server knows it, `id` the one under which it is stored.
#[derive(Clone, Debug, PartialEq, Eq)]
pub struct Guild {
    pub id: u32,
    pub server_uid: u64,
    pub name: String,
    pub server_id: u32,
}

/// The model of a [`Guild`].
pub struct GuildView {
    pub id: u32,
    pub server_uid: u64,
    pub name: Seq<char>,
    pub server_id: u32,
}

impl View for Guild {
    type V = GuildView;

    open spec fn view(&self) -> GuildView {
        GuildView { id: self.id, server_uid: self.server_uid, name: self.name@, server_id: self.server_id }
    }
}

/// Why a guild could not be created.
#[derive(Clone, Copy, Debug, PartialEq, Eq)]
pub enum Failure {
    /// The guild has the uid `0`.
    InvalidInput,
    /// No id is left for the guild.
    Unknown,
}

/// What is known of the characters, arena teams and guilds of every
/// server; guild ids are given out from `next_guild_id` on.
pub struct Armory {
    pub characters: Vec<CharacterRecord>,
    pub arena_teams: Vec<ArenaTeamRecord>,
    pub guilds: Vec<Guild>,
    pub next_guild_id: u32,
}

/// Creating guilds.
pub trait CreateGuild {
    /// Gives the guild that `guild` describes on the server `server_id`,
    /// and creates it where it is not known yet.
    fn create_guild(&mut self, server_id: u32, guild: GuildDto) -> Result<Guild, Failure>;
}

/// The model of the guilds.
pub open spec fn guilds_view(guilds: Seq<Guild>) -> Seq<GuildView> {
    Seq::new(guilds.len(), |i: int| guilds[i]@)
}

/// The first position from `from` on at which `guilds` holds the guild
/// `server_uid` of server `server_id`; the length where there is none.
pub open spec fn guild_position(guilds: Seq<GuildView>, server_id: u32, server_uid: u64, from: int) -> int
    decreases guilds.len() - from,
{
    if from < 0 || from >= guilds.len() {
        guilds.len() as int
    } else if guilds[from].server_id == server_id && guilds[from].server_uid == server_uid {
        from
    } else {
        guild_position(guilds, server_id, server_uid, from + 1)
    }
}

/// What comes of the request to create `guild` on `server_id`, with the
/// guilds as they then are and the next free id.
pub open spec fn spec_create_guild(
    guilds: Seq<GuildView>,
    next_guild_id: u32,
    server_id: u32,
    server_uid: u64,
    name: Seq<char>,
) -> (Result<GuildView, Failure>, Seq<GuildView>, u32) {
    let at = guild_position(guilds, server_id, server_uid, 0);
    if server_uid == 0 {
        (Err(Failure::InvalidInput), guilds, next_guild_id)
    } else if at < guilds.len() {
        (Ok(guilds[at]), guilds, next_guild_id)
    } else if next_guild_id == u32::MAX {
        (Err(Failure::Unknown), guilds, next_guild_id)
    } else {
        let created = GuildView { id: next_guild_id, server_uid, name, server_id };
        (Ok(created), guilds.push(created), (next_guild_id + 1) as u32)
    }
}

/// The first character of `s`, from position `from` on, with the given
/// server and id.
pub open spec fn find_character(s: Seq<CharacterRecord>, server_id: u32, character_id: u32, from: int) -> Option<
    CharacterRecord,
>
    decreases s.len() - from,
{
    if from < 0 || from >= s.len() {
        None
    } else if s[from].server_id == server_id && s[from].character_id == character_id {
        Some(s[from])
    } else {
        find_character(s, server_id, character_id, from + 1)
    }
}

/// The first arena team of `s`, from position `from` on, with the given
/// server and team uid.
pub open spec fn find_arena_team(s: Seq<ArenaTeamRecord>, server_id: u32, team_uid: u64, from: int) -> Option<
    ArenaTeamRecord,
>
    decreases s.len() - from,
{
    if from < 0 || from >= s.len() {
        None
    } else if s[from].server_id == server_id && s[from].team_uid == team_uid {
        Some(s[from])
    } else {
        find_arena_team(s, server_id, team_uid, from + 1)
    }
}

impl Armory {
    /// An armory that knows nobody.
    pub fn new() -> (a: Self)
        ensures
            a.characters@.len() == 0,
            a.arena_teams@.len() == 0,
            a.guilds@.len() == 0,
            a.next_guild_id == 1,
    {
        Armory { characters: Vec::new(), arena_teams: Vec::new(), guilds: Vec::new(), next_guild_id: 1 }
    }

    /// The character `character_id` of server `server_id`, as first recorded.
    pub open spec fn spec_lookup_character(&self, server_id: u32, character_id: u32) -> Option<CharacterRecord> {
        find_character(self.characters@, server_id, character_id, 0)
    }

    /// The arena team `team_uid` of server `server_id`, as first recorded.
    pub open spec fn spec_lookup_arena_team(&self, server_id: u32, team_uid: u64) -> Option<ArenaTeamRecord> {
        find_arena_team(self.arena_teams@, server_id, team_uid, 0)
    }

    /// The character `character_id` of server `server_id`.
    pub fn lookup_character(&self, server_id: u32, character_id: u32) -> (r: Option<CharacterRecord>)
        ensures
            r == self.spec_lookup_character(server_id, character_id),
    {
        let mut i: usize = 0;
        while i < self.characters.len()
            invariant
                i <= self.characters.len(),
                self.spec_lookup_character(server_id, character_id) == find_character(
                    self.characters@,
                    server_id,
                    character_id,
                    i as int,
                ),
            decreases self.characters.len() - i,
        {
            let c = self.characters[i];
            if c.server_id == server_id && c.character_id == character_id {
                return Some(c);
            }
            i += 1;
        }
        None
    }

    /// The arena team `team_uid` of server `server_id`.
    pub fn lookup_arena_team(&self, server_id: u32, team_uid: u64) -> (r: Option<ArenaTeamRecord>)
        ensures
            r == self.spec_lookup_arena_team(server_id, team_uid),
    {
        let mut i: usize = 0;
        while i < self.arena_teams.len()
            invariant
                i <= self.arena_teams.len(),
                self.spec_lookup_arena_team(server_id, team_uid) == find_arena_team(
                    self.arena_teams@,
                    server_id,
                    team_uid,
                    i as int,
                ),
            decreases self.arena_teams.len() - i,
        {
            let t = self.arena_teams[i];
            if t.server_id == server_id && t.team_uid == team_uid {
                return Some(t);
            }
            i += 1;
        }
        None
    }

    /// The guild `server_uid` of server `server_id`.
    pub fn lookup_guild(&self, server_id: u32, server_uid: u64) -> (r: Option<Guild>)
        ensures
            match r {
                Some(guild) => {
                    let at = guild_position(guilds_view(self.guilds@), server_id, server_uid, 0);
                    at < self.guilds@.len() && guild@ == guilds_view(self.guilds@)[at]
                },
                None => guild_position(guilds_view(self.guilds@), server_id, server_uid, 0) >= self.guilds@.len(),
            },
    {
        let ghost guilds = guilds_view(self.guilds@);
        let mut i: usize = 0;
        while i < self.guilds.len()
            invariant
                i <= self.guilds.len(),
                guilds == guilds_view(self.guilds@),
                guild_position(guilds, server_id, server_uid, 0) == guild_position(
                    guilds,
                    server_id,
                    server_uid,
                    i as int,
                ),
            decreases self.guilds.len() - i,
        {
            assert(guilds[i as int] == self.guilds@[i as int]@);
            if self.guilds[i].server_id == server_id && self.guilds[i].server_uid == server_uid {
                let known = &self.guilds[i];
                return Some(
                    Guild {
                        id: known.id,
                        server_uid: known.server_uid,
                        name: known.name.clone(),
                        server_id: known.server_id,
                    },
                );
            }
            i += 1;
        }
        None
    }
}

impl CreateGuild for Armory {
    /// A guild with the uid `0` is refused as `InvalidInput`.  A guild
    /// that is known under its uid on the server is given as it is
    /// known.  Any other guild is created under the next free id, and
    /// refused as `Unknown` where no id is left.
    fn create_guild(&mut self, server_id: u32, guild: GuildDto) -> (r: Result<Guild, Failure>)
        ensures
            final(self).characters == old(self).characters,
            final(self).arena_teams == old(self).arena_teams,
            ({
                let (result, guilds, next_guild_id) = spec_create_guild(
                    guilds_view(old(self).guilds@),
                    old(self).next_guild_id,
                    server_id,
                    guild.server_uid,
                    guild.name@,
                );
                &&& guilds_view(final(self).guilds@) == guilds
                &&& final(self).next_guild_id == next_guild_id
                &&& match r {
                    Ok(g) => result == Ok::<GuildView, Failure>(g@),
                    Err(e) => result == Err::<GuildView, Failure>(e),
                }
            }),
    {
        if guild.server_uid == 0 {
            return Err(Failure::InvalidInput);
        }
        match self.lookup_guild(server_id, guild.server_uid) {
            Some(known) => {
                return Ok(known);
            },
            None => {},
        }
        let ghost guilds = guilds_view(self.guilds@);
        if self.next_guild_id == u32::MAX {
            return Err(Failure::Unknown);
        }
        let id = self.next_guild_id;
        let created = Guild { id, server_uid: guild.server_uid, name: guild.name.clone(), server_id };
        self.guilds.push(Guild { id, server_uid: guild.server_uid, name: guild.name, server_id });
        self.next_guild_id = id + 1;
        assert(guilds_view(self.guilds@) =~= guilds.push(created@));
        Ok(created)
    }
}

} // verus!
