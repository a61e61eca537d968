//! A minimal fungible-token ledger.
//!
//! The ledger tracks how many indivisible units of a single asset each
//! account holds, and moves, creates and destroys those units under explicit
//! authorization rules. The host that deploys it supplies caller identity,
//! persistence and an event log; those enter here as plain values — the
//! invoking principal is a parameter of every state-changing call, and each
//! successful call hands back the event the host must record.

pub mod account;
pub mod balances;
pub mod ledger;
