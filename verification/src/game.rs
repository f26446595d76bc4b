//! The card and deck engine.

pub mod card;
pub mod deck;
