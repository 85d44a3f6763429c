//! Protocol core of a UTXO ledger whose state commitment is a cryptographic
//! accumulator.
//!
//! The crate holds the bookkeeping of the three participant roles (miner,
//! bridge, user) and is generic over the accumulator scheme: accumulator
//! values, witnesses and membership proofs are carried through as opaque type
//! parameters, and the results of the scheme's operations are handed in by the
//! caller.

// `state` stands first: the modules after it rely on the equality of
// transactions that it defines and proves.
pub mod state;
pub mod ident;
pub mod select;
pub mod util;
pub mod genesis;
pub mod miner;
pub mod bridge;
pub mod user;
pub mod ledger;
