//! Search engine for vanity key pairs: the rules that decide whether a freshly
//! generated public key counts as a match, and the shared state that keeps
//! track of the best result reported so far.
//!
//! The library takes no part in threads, clocks or the terminal. A program
//! draws candidates with [`candidate::generate_candidate`], hands each to
//! [`worker::process_candidate`] together with the [`ratchet::Ratchet`] that
//! its workers share behind a lock, and shows what comes back.

pub mod alphabet;
pub mod benchmark;
pub mod bits;
pub mod candidate;
pub mod cli;
pub mod criteria;
pub mod encoding;
pub mod matcher;
pub mod mnemonic;
pub mod ratchet;
pub mod report;
pub mod similarity;
pub mod text;
pub mod worker;
