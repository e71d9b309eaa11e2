//! Live combat event correlation.
//!
//! A [`material::Server`] consumes the raw combat messages of one game-world
//! shard in arrival order, buffers them per subject, assembles them into
//! combat events, resolves references between events, and stamps every
//! event with the encounter (raid, battleground, arena, skirmish) in which
//! it happened.  Encounter records are kept in a [`store::Store`], the
//! in-memory mirror of the relational tables, which also journals every
//! write for the persistence layer to replay.
pub mod armory;
pub mod correlator;
pub mod cross_reference;
pub mod domain_value;
pub mod dto;
pub mod exporter;
pub mod guid;
pub mod lifecycle;
pub mod map_unit;
pub mod material;
pub mod spell;
pub mod store;
pub mod table;
pub mod well_formed;
