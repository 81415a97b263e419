//! An iterated Prisoner's Dilemma round-robin tournament.
//!
//! A fixed roster of five strategies plays every ordered pairing over a number
//! of simultaneous-move rounds. Each strategy is a small state machine; a battle
//! drives two of them against each other and sums the payoffs, and a scoreboard
//! accumulates the points and ranks the roster.
pub mod battle;
pub mod cancel;
pub mod logging;
pub mod scoreboard;
pub mod strategies;
pub mod tournament;
pub mod types;
