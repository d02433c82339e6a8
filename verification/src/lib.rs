#![verifier::loop_isolation(false)]
//! In-memory domain layer of a peer-to-peer item-lending club.
//!
//! Members own items; items are lent out under time-bounded contracts; a
//! credit balance moves from borrower to owner for every day a contract is
//! active. The [`system::System`] aggregate owns all members and items,
//! enforces the uniqueness rules, and runs the daily settlement.

pub mod console;
pub mod contract;
pub mod errors;
pub mod item;
pub mod laws;
pub mod member;
pub mod system;
pub mod util;
pub mod uuid;
pub mod views;
