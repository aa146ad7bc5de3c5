//! Verified core of a SOCKS proxy scanner.
//!
//! The library holds the pure logic of the scanner: the SOCKS4/SOCKS5 wire
//! codec, the classification of handshake responses, the configuration
//! model with its validation, and the decision logic of the scan engine
//! (candidate enumeration, per-pair version probing, and the admission
//! gate that bounds concurrency). All network I/O lives outside.

use vstd::prelude::*;

pub mod config;
pub mod handshake;
pub mod report;
pub mod scanner;
pub mod socks;

verus! {

} // verus!
