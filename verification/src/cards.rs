//! Cards, the types they are made of, and decks.

pub mod card;
pub mod deck;
pub mod types;
