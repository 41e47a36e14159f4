//! The command-line subcommands the surrounding binary dispatches on. Their
//! execution — token creation, connecting a client, starting a test game —
//! is wiring around the library and lives with the binary.

use vstd::prelude::*;

verus! {

/// What the binary was asked to do for a player.
#[derive(Clone, Copy, PartialEq, Eq, Structural, Debug)]
pub enum Command {
    Token,
    Connect,
    StartTestGame,
}

} // verus!
