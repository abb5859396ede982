//! Adapters between a contract manager and the outside world.
//!
//! Two independent components live here:
//!
//! * the *contract store* ([`store::MemoryStorage`]), a keyed registry of
//!   contracts tagged by lifecycle stage, and
//! * the *funding coordinator* ([`funding::select_funding`]), which turns the
//!   outputs a wallet reports as spendable into the set that funds a contract.
//!
//! Beside them, [`chain`] holds what the wallet adapter decides about chain
//! data, [`selection`] the call into the coin selection of
//! `bitcoin-coin-selection`, and [`error`] the adapter's failures.
//!
//! Nothing here talks to a wallet or a node: what they report comes in as
//! plain values and what they are to do goes out as plain values. Contracts
//! are stated over mathematical models (maps, sequences, multisets), and
//! every executable function but the few that call into another crate is
//! proved against its contract.

pub mod chain;
pub mod contract;
pub mod error;
pub mod funding;
pub mod selection;
pub mod store;
