//! A verified model of a LAN-emulation game relay: it bridges a locally
//! attached Warcraft III client to a remote authoritative game server,
//! intercepting chat commands, filtering muted peers' scoped chat, replaying
//! packets deferred during the lobby hand-off, and driving the periodic
//! action-tick clock that paces the simulation.
//!
//! All decision logic lives here with contracts; the surrounding process
//! (sockets, timers, the controller actor) supplies plain events and performs
//! the returned actions.

pub mod chat;
pub mod cli;
pub mod clock;
pub mod game;
pub mod mute;
pub mod packet;
pub mod relay;
pub mod text;
