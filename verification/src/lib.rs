//! A deterministic fault-injection harness for a small ingestion pipeline.
//!
//! The pipeline consumes messages from a log broker, reads configuration from
//! a key-value store, and appends formatted records to an append-only file,
//! periodically reading the last records back to verify them.  The heart of
//! the crate is the simulation substrate: an in-memory stand-in for the
//! broker, the store and the file that injects faults driven by a seeded
//! pseudorandom stream, together with a virtual clock whose sleeps advance
//! instantly.  For a fixed seed the whole run is a function of the seed, and
//! the contracts in this crate pin that function down.

pub mod clock;
pub mod driver;
pub mod faults;
pub mod io;
pub mod file;
pub mod lines;
pub mod pipeline;
pub mod prng;
pub mod tail;
pub mod tui;
