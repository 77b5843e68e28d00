//! A word-count library: one forward pass over a byte stream tallies
//! bytes, lines, words, and UTF-8-aware characters with O(1) carried state.

pub mod counting;

pub mod unicode;

pub mod classifier;

pub mod formatting;
