//! Recorded sequencer randomness.

pub mod admission;
pub mod batch;
pub mod epoch;
pub mod execution;
pub mod felt;
pub mod invoke;
pub mod journal;
pub mod json;
pub mod key_rotation;
pub mod map;
pub mod node;
pub mod protocol;
pub mod recorded;
pub mod rotation;
pub mod service;
pub mod settlement;
pub mod slices;
pub mod stark;
pub mod submission;
pub mod text;
pub mod ticket;

pub use felt::Felt;
