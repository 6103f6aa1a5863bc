//! A single-owner memo store: the account checks and state transitions of an
//! on-chain program that creates, updates and deletes one short text record
//! per account, together with the byte layout of its instructions and records.

pub mod codec;
pub mod error;
pub mod state;
pub mod instruction;
pub mod processor;
