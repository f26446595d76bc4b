//! The shared session: its messages, its players and the state they play in.

pub mod msg;
pub mod player;
pub mod registry;
pub mod state_man;
