//! The recommendation sidecar: its configuration, the JSON-RPC request and
//! error shapes, and the bookkeeping of request ids and failed requests.

use vstd::prelude::*;

verus! {

/// Milliseconds a request waits for its reply by default.
pub const DEFAULT_TIMEOUT_MS: u64 = 2000;

/// Requests in a row without a reply after which the sidecar is restarted.
pub const MAX_CONSECUTIVE_FAILURES: u32 = 3;

/// How the sidecar is started and how long a request may wait for its reply.
#[derive(Debug, Clone)]
pub struct SidecarConfig {
    /// The Node.js executable.
    pub node_executable: String,
    /// The sidecar script that the executable runs.
    pub script_path: String,
    /// Milliseconds a request waits for its reply.
    pub request_timeout_ms: u64,
    pub max_consecutive_failures: u32,
}

impl Default for SidecarConfig {
    /// `node` running `./rec-sidecar/index.js`, a two-second timeout and a
    /// restart after three failed requests in a row.
    fn default() -> (c: SidecarConfig)
        ensures
            c.node_executable@ == "node"@,
            c.script_path@ == "./rec-sidecar/index.js"@,
            c.request_timeout_ms == DEFAULT_TIMEOUT_MS,
            c.max_consecutive_failures == MAX_CONSECUTIVE_FAILURES,
    {
        SidecarConfig {
            node_executable: "node".to_owned(),
            script_path: "./rec-sidecar/index.js".to_owned(),
            request_timeout_ms: DEFAULT_TIMEOUT_MS,
            max_consecutive_failures: MAX_CONSECUTIVE_FAILURES,
        }
    }
}

/// A JSON-RPC 2.0 request.
#[derive(Debug, Clone)]
pub struct JsonRpcRequest<T> {
    pub jsonrpc: &'static str,
    pub id: u64,
    pub method: String,
    pub params: T,
}

/// The error member of a JSON-RPC reply.
#[derive(Debug, Clone)]
pub struct JsonRpcError {
    pub code: i32,
    pub message: String,
}

/// Request ids and the count of requests in a row that got no reply.
pub struct RequestTracker {
    next_id: u64,
    consecutive_failures: u32,
}

/// What a tracker holds: the next request id and the current run of failures.
pub struct TrackerView {
    pub next_id: u64,
    pub consecutive_failures: u32,
}

impl View for RequestTracker {
    type V = TrackerView;

    closed spec fn view(&self) -> TrackerView {
        TrackerView { next_id: self.next_id, consecutive_failures: self.consecutive_failures }
    }
}

/// The id after `id`; ids wrap around at the top of `u64`.
pub open spec fn id_after(id: u64) -> u64 {
    if id == u64::MAX {
        0
    } else {
        (id + 1) as u64
    }
}

impl RequestTracker {
    /// The first request gets id 1; no failures yet.
    pub fn new() -> (t: RequestTracker)
        ensures
            t@.next_id == 1,
            t@.consecutive_failures == 0,
    {
        RequestTracker { next_id: 1, consecutive_failures: 0 }
    }

    /// Hands out the id of a new request.
    pub fn take_id(&mut self) -> (id: u64)
        ensures
            id == old(self)@.next_id,
            final(self)@.next_id == id_after(id),
            final(self)@.consecutive_failures == old(self)@.consecutive_failures,
    {
        let id = self.next_id;
        self.next_id = self.next_id.wrapping_add(1);
        id
    }

    /// A reply came back: the run of failures ends.
    pub fn record_reply(&mut self)
        ensures
            final(self)@.consecutive_failures == 0,
            final(self)@.next_id == old(self)@.next_id,
    {
        self.consecutive_failures = 0;
    }

    /// A request timed out or its channel closed; says whether the run of
    /// failures has reached `max_failures`, when the sidecar is restarted.
    pub fn record_failure(&mut self, max_failures: u32) -> (restart: bool)
        requires
            old(self)@.consecutive_failures < u32::MAX,
        ensures
            final(self)@.consecutive_failures == old(self)@.consecutive_failures + 1,
            final(self)@.next_id == old(self)@.next_id,
            restart == (final(self)@.consecutive_failures >= max_failures),
    {
        self.consecutive_failures = self.consecutive_failures + 1;
        self.consecutive_failures >= max_failures
    }

    /// The sidecar process was started again: the run of failures ends.
    pub fn record_restart(&mut self)
        ensures
            final(self)@.consecutive_failures == 0,
            final(self)@.next_id == old(self)@.next_id,
    {
        self.consecutive_failures = 0;
    }

    pub fn consecutive_failures(&self) -> (n: u32)
        ensures
            n == self@.consecutive_failures,
    {
        self.consecutive_failures
    }
}

} // verus!
