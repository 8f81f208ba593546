//! Codec for the 128-byte battle encounter record of a scene file.
//!
//! A record is read into [`PackedBattleStructure`], its raw wire form, and
//! expanded into [`BattleStructure`], with named flags, split camera bytes and
//! one [`Enemy`] per slot; the way back collapses and writes it. Every step is
//! verified against the byte layout stated in [`battle_structure`], and
//! [`round_trip`] proves that the two directions undo each other.

pub mod battle_structure;
pub mod bits;
pub mod error;
pub mod le;
pub mod round_trip;
pub mod scene;

pub use battle_structure::{
    BattleFlags, BattleStructure, CameraAttributes, Coordinate, Enemy, EnemyFlag,
    PackedBattleStructure,
};
pub use error::CodecError;
