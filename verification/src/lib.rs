//! Decision logic of an AI player for a trading card game.
//!
//! The rules of the game live in a rules engine; this crate holds what the AI
//! decides with. A position is described by plain values ([`model`]), and on
//! those values stand the board evaluation ([`eval`], and [`eval_laws`] for what
//! holds of it), the tactical policies ([`policies`]), the action driver
//! ([`auto_play`]), feature harvesting ([`harvest`]) and the bookkeeping of the
//! command-line runners ([`commander`], [`duel`], [`bench`]).
//!
//! Scores, weights and commitments are fixed-point numbers in millionths: see
//! [`score`].

pub mod seqs;
pub mod text;
pub mod score;
pub mod model;
pub mod board;
pub mod config;
pub mod features;
pub mod combo;
pub mod projection;
pub mod eval;
pub mod eval_laws;
pub mod auto_play;
pub mod harvest;
pub mod mana_colors;
pub mod commander;
pub mod json;
pub mod decks;
pub mod duel;
pub mod bench;
pub mod policies;
