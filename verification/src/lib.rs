//! Boot-time provisioning agent library.
//!
//! On first boot an instance contacts its platform's metadata service,
//! negotiates a protocol version, retrieves the current goal state,
//! optionally unwraps an encrypted SSH credential, and reports readiness.
//! This crate holds the verified core of that pipeline: the retry policy,
//! the goal-state document parser, the handshake state machine, and the
//! credential-unwrap chain around the platform's cryptographic formats.
//! The I/O around it — HTTP, files, argument handling — lives with the
//! caller, which performs the actions the handshake engine requests and
//! feeds the outcomes back in.

pub mod cli;
pub mod crypto;
pub mod engine;
pub mod goalstate;
pub mod num;
pub mod providers;
pub mod retry;
pub mod scan;
pub mod sshkey;
pub mod util;
pub mod xml;
