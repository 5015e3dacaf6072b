//! A non-fungible-token contract core: a token ledger with mint, transfer,
//! approval management, enumeration and metadata entry points, each with a
//! verified contract. The host runtime supplies the caller's identity, the
//! attached deposit and the measured storage cost as plain arguments, and acts
//! on the receipts the entry points hand back.

pub mod contract;
pub mod error;
pub mod laws;
pub mod metadata;
pub mod token;
