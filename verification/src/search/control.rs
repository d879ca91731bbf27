//! The decisions of search control: counting nodes, when to poll for a stop,
//! and whether a deadline has passed. Times are milliseconds since the
//! search started; the clock and the stop flag themselves are the caller's.
use vstd::prelude::*;

verus! {

/// Nodes are counted, and a stop request polled, once every this many nodes.
pub const POLL_INTERVAL: u64 = 1024;

/// The number of nodes searched so far.
#[derive(Clone, Copy, Debug)]
pub struct NodeCounter {
    pub nodes: u64,
}

impl NodeCounter {
    pub fn new() -> (r: Self)
        ensures
            r.nodes == 0,
    {
        NodeCounter { nodes: 0 }
    }

    /// Counts one more node; answers whether the search should poll for a
    /// stop now, which it does at every multiple of `POLL_INTERVAL`.
    pub fn enter_node(&mut self) -> (poll: bool)
        requires
            old(self).nodes < u64::MAX,
        ensures
            final(self).nodes == old(self).nodes + 1,
            poll == (final(self).nodes % POLL_INTERVAL == 0),
    {
        let n: u64 = self.nodes + 1;
        self.nodes = n;
        assert((n & 1023) == 0 <==> n % 1024 == 0) by (bit_vector);
        (n & 1023) == 0
    }
}

/// Whether a deadline, if there is one, has passed after `elapsed_ms`.
pub open spec fn deadline_reached_spec(elapsed_ms: u64, deadline_ms: Option<u64>) -> bool {
    deadline_ms matches Some(d) && elapsed_ms >= d
}

/// Whether the search must stop now: on request, or once the hard deadline passed.
pub fn should_stop_now(stop_requested: bool, elapsed_ms: u64, hard_deadline_ms: Option<u64>) -> (r: bool)
    ensures
        r == (stop_requested || deadline_reached_spec(elapsed_ms, hard_deadline_ms)),
{
    stop_requested || reached_deadline(elapsed_ms, hard_deadline_ms)
}

/// Whether `deadline_ms`, if set, has passed; used for the soft deadline
/// between iterations.
pub fn reached_deadline(elapsed_ms: u64, deadline_ms: Option<u64>) -> (r: bool)
    ensures
        r == deadline_reached_spec(elapsed_ms, deadline_ms),
{
    match deadline_ms {
        Some(d) => elapsed_ms >= d,
        None => false,
    }
}

} // verus!
