//! State migration for a Filecoin node: the deterministic rewrite of the actor
//! state tree at a network upgrade, together with the address payloads and
//! content identifiers that the rewrite is keyed by.
//!
//! Every function in this crate is verified against its contract. The few
//! places where the crate rests on code outside it are marked as trusted and
//! say what they take on faith.

pub mod address;
pub mod cli;
pub mod econ;
pub mod ipld;
pub mod message;
pub mod migration;
