//! A synchronous cellular-automaton engine for colony growth on a flat,
//! non-wrapping square grid, with two local update regimes (single-cell and
//! colony), per-generation statistics, and a histogram over the recorded
//! maxima.

pub mod cell;
pub mod config;
pub mod rules;
pub mod sim;
pub mod stats;
