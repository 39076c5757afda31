//! A rule-driven shedding card game in the style of Mao: a deck, players'
//! hands, a registry of rules triggered by played values, and the turn
//! state machine that applies them.
pub mod card;
pub mod deck;
pub mod game;
pub mod input;
pub mod player;
pub mod quote;
pub mod render;
pub mod rule;
pub mod style;
