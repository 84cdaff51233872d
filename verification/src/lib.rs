//! A single-node educational ledger: a minimal blockchain engine with a
//! cryptographic wallet.
//!
//! Wallets ([`wallet`]) hold a P-256 keypair and sign transfers; transactions
//! ([`transaction`]) are verifiable independently of the ledger; blocks
//! ([`block`]) seal transactions under a proof-of-work hash; the ledger
//! ([`ledger`]) owns the append-only chain, the pending pool, mining and
//! balance computation; and [`api`] exposes one shared ledger behind a
//! verified reader-writer lock to concurrent callers.
//!
//! The contracts are stated over mathematical models of each type (its view)
//! and over named results of the outside cryptography ([`crypto`]).

use vstd::prelude::*;

pub mod api;
pub mod block;
pub mod codec;
pub mod crypto;
pub mod ledger;
pub mod transaction;
pub mod wallet;

verus! {

/// The largest transfer amount the ledger accepts.
///
/// Amounts are capped well below `u64::MAX` so that the net balance of any
/// address over any machine-representable chain fits in an `i128`.
pub const AMOUNT_LIMIT: u64 = 0x20_0000_0000_0000;

} // verus!

