//! A 160-bit digest of a short text secret.
//!
//! The digest keeps the round structure of a classic five-word compression
//! function, but feeds it a message schedule of its own: every expanded word is
//! the constant 1 rotated by an amount taken from four earlier words, and the
//! message is zero-filled into a fixed buffer instead of being length-padded.
//!
//! The pipeline is split over the modules in the order the data flows:
//! [`text`] normalizes the secret, [`scratch`] lays it out in the work buffer,
//! [`schedule`] expands the message words, [`compress`] runs the rounds and
//! [`digest`] serializes the result. [`words`] holds the word-level primitives
//! they share.

pub mod compress;
pub mod digest;
pub mod hex;
pub mod schedule;
pub mod scratch;
pub mod text;
pub mod words;

pub use text::{calculate_hash, get_hash_bytes, get_hash_string};
pub use words::rol;
