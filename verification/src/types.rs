//! Plain data carried through the correlation core: request configurations,
//! block payloads, events reported by the network, and the anomalies the core
//! records instead of crashing.

use vstd::prelude::*;

verus! {

/// Identifier assigned by the network worker to an outstanding block request.
/// Unique among requests currently in flight; it may be reused once the
/// request carrying it has been resolved.
pub type RequestId = u64;

/// Specification of a block request handed to the network worker: a contiguous
/// range of block heights.
#[derive(Clone, Copy, PartialEq, Eq, Structural, Debug)]
pub struct BlocksRequestConfig {
    /// Height of the first requested block.
    pub start: u64,
    /// Number of consecutive blocks requested.
    pub count: u64,
}

/// Payload of one block returned by the network worker. Its encoding is the
/// network layer's concern; this core only routes it.
#[derive(Clone, PartialEq, Eq, Debug)]
pub struct BlockData {
    pub bytes: Vec<u8>,
}

/// Event reported by the network worker.
pub enum NetworkEvent {
    /// A peer announced a block. This core forwards announcements to no one.
    BlockAnnounce(BlockData),
    /// A previously started block request finished, successfully or not.
    BlocksRequestFinished { id: RequestId, result: Result<Vec<BlockData>, ()> },
}

/// Internal-consistency anomaly. Anomalies are recorded and reported; they
/// never terminate the multiplexer loop.
#[derive(Clone, Copy, PartialEq, Eq, Structural, Debug)]
pub enum Anomaly {
    /// The network reported a completion for an id that no outstanding request
    /// carries: either never started by this core, or already resolved.
    UnknownCompletion(RequestId),
    /// The network assigned an id that is still outstanding, breaking its
    /// uniqueness contract. The existing entry is kept untouched.
    DuplicateRequestId(RequestId),
}

} // verus!
