//! Extraction of console-variable records from the text that a game server
//! prints for its variable listing, and their rendering as CSV.
//!
//! The line grammars are regular expressions matched by the `regex` crate, the
//! text is cut into lines by the standard library, and rows are encoded by the
//! `csv` crate. These are reached through a handful of trusted declarations
//! in [`pattern`], [`lines`] and [`encode`], each of which says what it takes
//! for granted. Everything built on them is verified: line classification,
//! the summary count, the order of records and flags, and the row layout.
//!
//! - [`cvar`]: the record of one variable.
//! - [`extract`]: from a listing to records and the expected count.
//! - [`laws`]: what holds of every extraction.
//! - [`serialize`]: from records to CSV bytes.
//! - [`advisory`]: the comparison of the record count with the reported one.

pub mod advisory;
pub mod cvar;
pub mod encode;
pub mod extract;
pub mod laws;
pub mod lines;
pub mod pattern;
pub mod serialize;
