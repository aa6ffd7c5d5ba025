//! Readiness reporting components.
//!
//! Both services react to the gateway's ready event, which carries only
//! display data (the connected identity and its communities).  Reporting it
//! is plain logging, so the components make no decisions; the surrounding
//! process forwards the event data to its logger.

use vstd::prelude::*;

verus! {

/// Reports the connected identity and how many communities it can see when
/// the gateway becomes ready.
pub struct HealthCheckService;

impl HealthCheckService {
    pub fn new() -> (r: Self)
        ensures
            r == (HealthCheckService {}),
    {
        Self {}
    }
}

/// Announces that the gateway connection is established.
pub struct ReadyService;

impl ReadyService {
    pub fn new() -> (r: Self)
        ensures
            r == (ReadyService {}),
    {
        ReadyService {}
    }
}

} // verus!
