//! A minimal verifiable blockchain: hash-linked headers that carry one extrinsic and the running
//! state it leads to, first without and then with consensus rules on top.
//!
//! * [`digest`] is the hashing primitive both layers build on.
//! * [`linked_state`] links headers by digest, counts heights and sums extrinsics into a state.
//!   [`linked_state_chains`] holds what is true of whole chains of such headers, and builds some.
//! * [`consensus`] adds a proof-of-work nonce to each header, and two rival parity rules that
//!   bind the state of every header above the fork height. [`consensus_chains`] holds what is
//!   true of whole chains under these rules, and builds a contentious fork.

pub mod digest;
pub mod linked_state;
pub mod linked_state_chains;
pub mod consensus;
pub mod consensus_chains;
