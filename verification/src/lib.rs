//! Batch distribution of a fungible token: one invocation moves tokens from
//! the token account of a signing authority to many recipient token accounts,
//! all or nothing.
//!
//! An invocation carries a payload of transfer instructions and an ordered
//! list of accounts. `wire` decodes the payload, `accounts` binds the list to
//! roles, `airdrop` says step by step which ledger operation comes next, and
//! `program` runs the whole against a ledger that the caller supplies.
//! `ledger` holds the operations as the token program lays them out, `le` the
//! little-endian numbers of the wire, `token` the balance of a token account.

pub mod accounts;
pub mod airdrop;
pub mod error;
pub mod le;
pub mod ledger;
pub mod program;
pub mod token;
pub mod wire;
