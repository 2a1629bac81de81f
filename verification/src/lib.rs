//! Turn synchronization for a chess client: replaying server-sent move
//! histories into an authoritative position, deciding when a move is owed,
//! and the line protocols around the two move sources (a human typing
//! notation and an engine subprocess).

pub mod challenge;
pub mod engine_proto;
pub mod human;
pub mod position;
pub mod session;
pub mod sync;
pub mod text;
