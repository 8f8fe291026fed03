//! Content identifiers and collections of them.

pub mod cid;
pub mod cid_hashset;

pub use cid::Cid;
pub use cid_hashset::CidHashSet;
