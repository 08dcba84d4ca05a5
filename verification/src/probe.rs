//! The retry rule of the connection tests run after a password change.
use vstd::prelude::*;
use crate::types::ProcessOutput;

verus! {

/// How many times the connection test tries.
pub const CONNECTION_ATTEMPTS: u32 = 5;

/// Seconds between two tries of the connection test.
pub const CONNECTION_RETRY_SECS: u64 = 3;

/// What the connection test does after one try.
#[derive(Debug, Clone, Copy, PartialEq, Eq)]
pub enum ProbeVerdict {
    /// The client connected: the test passed.
    Connected,
    /// Wait [`CONNECTION_RETRY_SECS`] seconds and try again.
    Retry,
    /// Every try failed: the test failed.
    GaveUp,
}

/// Decides after try number `attempt` (1 to 5) of the connection test: a client
/// that exited with 0 passes the test; otherwise it is tried again until the
/// fifth try has failed.
pub fn connection_probe(attempt: u32, result: &Result<ProcessOutput, String>) -> (r: ProbeVerdict)
    requires
        1 <= attempt <= CONNECTION_ATTEMPTS,
    ensures
        (r == ProbeVerdict::Connected) == (result matches Ok(o) && o.exit_code == 0),
        r == ProbeVerdict::Retry <==> (!(result matches Ok(o) && o.exit_code == 0)
            && attempt < CONNECTION_ATTEMPTS),
        r == ProbeVerdict::GaveUp <==> (!(result matches Ok(o) && o.exit_code == 0)
            && attempt == CONNECTION_ATTEMPTS),
{
    let ok = match result {
        Ok(o) => o.exit_code == 0,
        Err(_) => false,
    };
    if ok {
        ProbeVerdict::Connected
    } else if attempt < CONNECTION_ATTEMPTS {
        ProbeVerdict::Retry
    } else {
        ProbeVerdict::GaveUp
    }
}

} // verus!
