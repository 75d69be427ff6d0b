//! Heartbeat/lease tuning parameters, in nanoseconds (the resolution of
//! `std::time::Duration`, whose `as_nanos` gives them).
//!
//! Defaults detect a dead worker within about 1.5 s: three missed heartbeats.

use vstd::prelude::*;
use crate::error::SwarmError;
use crate::text::{duration_debug, push_duration_debug};

verus! {

#[derive(Debug, Clone, Copy, PartialEq, Eq, Structural)]
pub struct LeaseConfig {
    pub heartbeat_interval_ns: u128,
    pub lease_timeout_ns: u128,
}

impl Default for LeaseConfig {
    fn default() -> (c: Self)
        ensures
            c.heartbeat_interval_ns == 500_000_000,
            c.lease_timeout_ns == 1_500_000_000,
    {
        LeaseConfig { heartbeat_interval_ns: 500_000_000, lease_timeout_ns: 1_500_000_000 }
    }
}

pub open spec fn lease_valid(c: LeaseConfig) -> bool {
    c.lease_timeout_ns > c.heartbeat_interval_ns
}

/// The message with which an invalid configuration is refused.
pub open spec fn invalid_lease_message(c: LeaseConfig) -> Seq<char> {
    "lease_timeout ("@ + duration_debug(c.lease_timeout_ns as nat)
        + ") must be strictly greater than heartbeat_interval ("@
        + duration_debug(c.heartbeat_interval_ns as nat) + ")"@
}

impl LeaseConfig {
    /// A timeout at or below the heartbeat interval would reap healthy
    /// workers between beats: refuse it up front.
    pub fn validate(&self) -> (r: Result<(), SwarmError>)
        ensures
            lease_valid(*self) ==> r is Ok,
            !lease_valid(*self) ==> (r matches Err(SwarmError::InvalidConfig(m))
                && m@ == invalid_lease_message(*self)),
    {
        if self.lease_timeout_ns <= self.heartbeat_interval_ns {
            let mut m = String::from_str("lease_timeout (");
            push_duration_debug(&mut m, self.lease_timeout_ns);
            m.append(") must be strictly greater than heartbeat_interval (");
            push_duration_debug(&mut m, self.heartbeat_interval_ns);
            m.append(")");
            return Err(SwarmError::InvalidConfig(m));
        }
        Ok(())
    }
}

} // verus!
