//! A verified engine for a deduction board game.
//!
//! A hidden solution (one suspect, one weapon, one room) is chosen when a game
//! starts; the remaining cards are dealt as evenly as possible among the
//! registered players; suggestions may then be refuted by other players who
//! hold a matching card, and an accusation wins exactly when it equals the
//! solution.

pub mod cards;
pub mod deal;
pub mod game;
pub mod resolve;
