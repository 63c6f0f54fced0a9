//! Verified core of a podracer arena server: the engine rules of a vehicle,
//! the bookkeeping of a game session, the arena's wall layout, the decisions
//! taken on incoming network frames and over the course of a connection, and
//! the recording and replay of inputs.

pub mod vehicle;
pub mod game;
pub mod recording;
pub mod map;
pub mod protocol;
pub mod network;
pub mod session;
