//! Execution core of a blockchain indexing node: the guest value codec,
//! the read-only view of a peer deployment's entity history, the block
//! pump's head bookkeeping and the link resolver's pure policies.
use vstd::prelude::*;

pub mod asc;
pub mod store;
pub mod triggers;
pub mod pump;
pub mod resolver;
pub mod dev;

verus! {

} // verus!
