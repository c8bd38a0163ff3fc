//! Before Colony: the integer logic of the client, the bot SDK, the suit rig and the counting
//! allocator, with contracts proved by Verus.

pub mod hotpath;
pub mod hex;
pub mod rig;
pub mod paint;
pub mod tags;
pub mod grid;
pub mod history;
pub mod track;
pub mod ledger;
pub mod beams;
pub mod schedule;
pub mod session;
pub mod names;
pub mod endpoint;
pub mod shots;
pub mod salvage;
pub mod entities;
pub mod wear;
pub mod livery;
pub mod miner;
pub mod hud;
pub mod world;
