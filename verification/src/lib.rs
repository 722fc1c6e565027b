//! A small card-divination library: a standard 52-card deck augmented with
//! two jokers, randomized shuffling, destructive draw-without-replacement,
//! and a fixed textual meaning for every card; plus the pure parts of the
//! surrounding programs (prompt assembly, reading formatting, and the
//! metadata record returned by the identifier-generating service).

pub mod cards;
pub mod deck;
pub mod reading;
pub mod response;
