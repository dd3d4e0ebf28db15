//! Per-speaker audio history for live group voice sessions.
//!
//! Each speaker of a session owns a fixed-capacity ring of slots that holds the
//! most recent samples together with compact markers for the silences between
//! them. Sessions map transient source identifiers to those rings and to the
//! stable identity of the person speaking, and an export turns every
//! attributable ring into raw PCM for an encoder.
//!
//! - [`audio`]: the slots and the signal that a history of slots stands for.
//! - [`buffer`]: the ring of one speaker.
//! - [`users`]: the registry of who speaks on which source.
//! - [`buffer_set`], [`lobby`], [`lobbies`]: the buffers of a session, the
//!   session, and the sessions that are under way.
//! - [`export`]: from a session to the files of an export.
//! - [`clock`], [`config`], [`commands`]: the time, the settings and the
//!   decisions of the service around them.
//! - [`laws`]: what holds across operations.
//!
//! The library takes no lock and starts no task: everything in it is a plain
//! value that its owner may guard as it sees fit. Every executable function
//! carries a contract over a mathematical model of its data.

pub mod audio;
pub mod buffer;
pub mod buffer_set;
pub mod clock;
pub mod commands;
pub mod config;
pub mod export;
pub mod laws;
pub mod lobbies;
pub mod lobby;
pub mod users;
