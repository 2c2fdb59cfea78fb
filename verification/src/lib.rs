//! Correlation-and-dispatch core for a poll-based request/response transport.
//!
//! Many concurrent logical requests share one transport. Each outgoing
//! request carries a fresh correlation id; a registry hands every inbound
//! response to exactly the waiter that holds the matching id, while
//! unsolicited updates are routed back to the loop that drives receiving.
//! Rate-limit responses ("retry after N") are recognized so the embedder can
//! back off and re-issue the request under a new id.
//!
//! The transport itself (handle creation, send, bounded receive) is the
//! embedder's: this crate works on the plain values that cross that boundary.

use vstd::prelude::*;

pub mod codec;
pub mod dispatch;
pub mod msg;
pub mod registry;
pub mod retry;

verus! {

/// An opaque handle naming one transport session.
///
/// The transport mints these as non-negative integers; the factory below
/// wraps the minted integer, and every send against the session quotes it.
pub struct ClientHandle {
    id: i32,
}

impl View for ClientHandle {
    type V = int;

    closed spec fn view(&self) -> int {
        self.id as int
    }
}

impl ClientHandle {
    /// The integer the transport knows this session by.
    pub fn id(&self) -> (r: i32)
        ensures
            r as int == self@,
    {
        self.id
    }
}

/// Wrap a handle the transport minted. Handles are caller-opaque beyond
/// being non-negative integers that every later send must quote.
pub fn create_client(raw: i32) -> (h: ClientHandle)
    requires
        0 <= raw,
    ensures
        h@ == raw as int,
{
    ClientHandle { id: raw }
}

} // verus!
