//! A falling-block puzzle engine: pieces, the board, the randomizer, scoring,
//! the per-player state machine, the frames two peers exchange, the session
//! that ties them together, an agent that plays, and what the screen shows.
//!
//! The engine does no input or output. A loop around it hands it what
//! happens (a key, a tick of a clock, a frame from the peer) and does what
//! the engine leaves to do: it sends frames, sets clocks and paints.
use vstd::prelude::*;

pub mod agent;
pub mod bag;
pub mod board;
pub mod bytes;
pub mod conn;
pub mod display;
pub mod event;
pub mod game;
pub mod player;
pub mod random;
pub mod run;
pub mod score;
pub mod tetromino;

verus! {

/// Who plays against whom.
#[derive(Clone, Copy, Debug, PartialEq, Eq, Structural)]
pub enum Mode {
    Singleplayer,
    Multiplayer,
    PlayerVsComputer,
    ComputerVsComputer,
}

/// What the command line asks for.
#[derive(Clone, Debug, PartialEq, Eq)]
pub struct Cli {
    pub mode: Mode,
    pub host: bool,
    pub join: bool,
    pub bind_addr: Option<String>,
    pub conn_addr: Option<String>,
    pub start_level: u32,
    pub party: bool,
    pub debug: bool,
}

} // verus!
