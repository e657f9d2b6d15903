//! A single-node, stake-gated, append-only ledger.
//!
//! The core is the block validation-and-assembly engine ([`block`]) together
//! with the chain store it feeds ([`blockchain`]): the rules that decide
//! whether a candidate block may extend the ledger, and the invariants the
//! ledger always satisfies. Around the core stand a validator identity
//! ([`account`]), a transaction audit log ([`transaction`]), a byte codec for
//! replicating blocks to peers ([`codec`]), and the crypto collaborators the
//! prototype exercises ([`sec8`]).

pub mod account;
pub mod block;
pub mod blockchain;
pub mod codec;
pub mod errors;
pub mod sec8;
pub mod transaction;
