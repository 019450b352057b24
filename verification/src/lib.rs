//! A small interactive-fiction runtime: a world of stages connected by
//! possibly locked or hidden paths, world-wide flags flipped by triggers,
//! and a command interpreter that turns a line of player input into an
//! intent from a small fixed set.

pub mod game;
pub mod input;
pub mod item;
pub mod kv;
pub mod path;
pub mod stage;
pub mod strutil;
pub mod trigger;
