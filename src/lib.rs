//! Correlation and attestation engine of an off-chain attestation node.
//!
//! A header of a chain is matched against data-availability (DA) blocks by
//! chain, height and state root; exactly one state-root update message comes
//! out of every processed header, with the DA fields of the match or zeros.
pub mod types;
pub mod notifier;
pub mod correlator;
pub mod supervisor;
pub mod consumer;
