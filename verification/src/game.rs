//! Hands that can be played, and the rounds they are played in.

pub mod game;
pub mod hand_order;
pub mod player;
pub mod player_move;
pub mod round;
