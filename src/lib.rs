//! A blockchain sequencer core: scalar values, transactions, blocks and
//! receipts, their byte encoding, a multi-index store, the block builder and
//! the commit pipeline that turns committed consensus rounds into blocks.
use vstd::prelude::*;

pub mod block;
pub mod bytes;
pub mod codec;
pub mod execution;
pub mod felt;
pub mod laws;
pub mod mempool;
pub mod pipeline;
pub mod serializable_types;
pub mod store;
pub mod syscall;
pub mod types;

verus! {

} // verus!
