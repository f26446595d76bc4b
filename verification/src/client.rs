//! What one connection does to the session it is bound to, and what a
//! client keeps of the game on its own side.

pub mod app_state;
pub mod hand;
pub mod handler;
