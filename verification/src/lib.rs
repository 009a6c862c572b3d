//! A verified parser and report generator for Quake 3 Arena dedicated-server
//! logs.
//!
//! The crate segments a raw log into games, extracts the kill events of each
//! game, and aggregates them into per-game kill statistics. The grammar is
//! specified by spec functions over byte sequences, and every executable
//! parser is proved to return exactly what its spec function describes.

pub mod scan;
pub mod time;
pub mod kill;
pub mod game;
pub mod report;
