//! Rules engine for Pusoy Dos: cards and their order, the classification of
//! played hands, and the turn-by-turn state of a round.

pub mod cards;
pub mod game;
