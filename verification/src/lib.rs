//! Session engine of a multi-player UNO server: the cards and the deck, the
//! registry of players, the turn order, and the session state machine that a
//! connection drives with the actions it decodes.

pub mod client;
pub mod game;
pub mod state;
