//! Schedule extraction, stream-source correlation and selection logic for a
//! command-line viewer of live baseball games.

pub mod flow;
pub mod json;
pub mod schedule;
pub mod select;
pub mod sources;
pub mod text;
