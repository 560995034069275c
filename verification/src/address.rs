//! The value a successful lookup produces: a typed address together with
//! its provenance (provider name, observation time, latency).

use vstd::prelude::*;

use crate::addr::Ipv4Address;
use crate::addr::Ipv6Address;

verus! {

/// Relies on chrono::Utc::now, read as a number with
/// DateTime::timestamp_millis: the moment of the call in Unix milliseconds.
/// Nothing is promised of the value; it depends on the wall clock.
#[verifier::external_body]
pub(crate) fn now_unix_millis() -> i64 {
    chrono::Utc::now().timestamp_millis()
}

/// Global address information: one address as some provider saw it.
///
/// Exactly one of `v4addr` and `v6addr` is set, matching the family of the
/// provider that answered.
#[derive(Debug)]
pub struct GlobalAddress {
    /// When the address was observed, in Unix milliseconds.
    pub time: i64,
    /// Wall-clock time the successful call took, in milliseconds;
    /// `None` when it was not measured.
    pub latency: Option<u64>,
    /// The IPv4 address, for an IPv4 provider.
    pub v4addr: Option<Ipv4Address>,
    /// The IPv6 address, for an IPv6 provider.
    pub v6addr: Option<Ipv6Address>,
    /// Name of the provider that answered.
    pub provider: String,
}

impl GlobalAddress {
    /// One family is populated and the other empty.
    pub open spec fn well_formed(&self) -> bool {
        (self.v4addr is Some) != (self.v6addr is Some)
    }

    /// Wraps an IPv4 answer, stamping the current time.
    pub fn from_v4(addr: Ipv4Address, provider: &str, latency: Option<u64>) -> (r: GlobalAddress)
        ensures
            r.v4addr == Some(addr),
            r.v6addr is None,
            r.provider@ == provider@,
            r.latency == latency,
            r.well_formed(),
    {
        GlobalAddress {
            time: now_unix_millis(),
            latency,
            v4addr: Some(addr),
            v6addr: None,
            provider: String::from_str(provider),
        }
    }

    /// Wraps an IPv6 answer, stamping the current time.
    pub fn from_v6(addr: Ipv6Address, provider: &str, latency: Option<u64>) -> (r: GlobalAddress)
        ensures
            r.v6addr == Some(addr),
            r.v4addr is None,
            r.provider@ == provider@,
            r.latency == latency,
            r.well_formed(),
    {
        GlobalAddress {
            time: now_unix_millis(),
            latency,
            v4addr: None,
            v6addr: Some(addr),
            provider: String::from_str(provider),
        }
    }
}

} // verus!
