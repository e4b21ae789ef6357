//! Movie reviews on a ledger: participants publish a review, update it,
//! attach numbered comments, and are paid in a reward token for each review
//! and each comment.
//!
//! The library is the program's logic on plain values. An operation takes
//! the accounts that the ledger hands in, checks them, and either rejects the
//! call and leaves the accounts as they were, or writes the records and
//! returns the steps that the host has to carry out: allocating the slots and
//! minting the reward.
//!
//! - [`address`]: addresses and the derivation of sub-account addresses
//! - [`codec`]: integers, flags and text on the wire
//! - [`state`]: the review, counter and comment records and their layout
//! - [`account`]: accounts and storage slots
//! - [`instruction`]: the operations and their wire format
//! - [`reward`]: host steps and the capability check of the reward
//! - [`processor`]: the operations themselves
//! - [`laws`]: what holds over all inputs and across calls
//! - [`error`]: why a call is rejected

pub mod account;
pub mod address;
pub mod codec;
pub mod error;
pub mod instruction;
pub mod laws;
pub mod processor;
pub mod reward;
pub mod state;
