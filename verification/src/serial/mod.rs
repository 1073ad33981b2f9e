//! Framing of a byte stream into length-prefixed batches.

pub mod serialize;
