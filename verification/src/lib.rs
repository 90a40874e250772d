//! A two-player Kuhn poker engine: a three-card deck, fixed antes, one
//! betting round per hand, and hands repeated until a stack is empty.
//!
//! - [`card`]: the deck and its ranking.
//! - [`action`]: the moves and the tree of legal move sequences.
//! - [`game`]: the model of a match, and what holds of every match.
//! - [`engine`]: the engine that plays a match step by step.
//! - [`player`]: the players that the engine asks for moves.
//! - [`strategy`]: the exact parts of a table-driven strategy.
//! - [`random`]: what is taken on trust of the random source.

pub mod action;
pub mod card;
pub mod engine;
pub mod game;
pub mod player;
pub mod random;
pub mod strategy;
