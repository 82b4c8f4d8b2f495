//! Network availability monitoring policy.
//!
//! EasyTier can work on a LAN without public Internet access, so the service
//! uses the operating system's aggregate connectivity hint rather than an
//! Internet ping.  A probe failure preserves the previous observation: a
//! transient probe failure must not stop an otherwise healthy tunnel.

use vstd::prelude::*;

use crate::text::{concat2, decimal_string, decimal_text};

verus! {

/// Error returned when the operating system cannot provide a connectivity
/// observation.  Callers keep the last successful observation.
#[derive(Clone, Debug, PartialEq, Eq)]
pub struct NetworkProbeError {
    message: String,
}

impl View for NetworkProbeError {
    type V = Seq<char>;

    closed spec fn view(&self) -> Seq<char> {
        self.message@
    }
}

impl NetworkProbeError {
    /// The error for a failed `GetNetworkConnectivityHint` call.
    pub fn windows(error: u32) -> (r: Self)
        ensures
            r@ == "GetNetworkConnectivityHint returned Windows error "@ + decimal_text(error as nat),
    {
        NetworkProbeError {
            message: concat2(
                "GetNetworkConnectivityHint returned Windows error ",
                decimal_string(error as u64).as_str(),
            ),
        }
    }

    /// The human-readable message of this error.
    pub fn message(&self) -> (r: String)
        ensures
            r@ == "network availability probe failed: "@ + self@,
    {
        concat2("network availability probe failed: ", self.message.as_str())
    }
}

/// Whether a Windows connectivity level counts as usable network access:
/// local access, Internet access or constrained Internet access.  Local
/// access counts because a direct peer or a private relay may be reachable
/// without public Internet access.
pub open spec fn level_is_available(level: i32) -> bool {
    2 <= level <= 4
}

pub fn connectivity_level_available(level: i32) -> (r: bool)
    ensures
        r == level_is_available(level),
{
    2 <= level && level <= 4
}

/// Polling monitor that reports only confirmed state transitions.
#[derive(Clone, Debug)]
pub struct NetworkMonitor {
    available: bool,
}

impl View for NetworkMonitor {
    type V = bool;

    closed spec fn view(&self) -> bool {
        self.available
    }
}

impl NetworkMonitor {
    /// Starts from the first probe's result.  If the probe fails because
    /// networking is not initialized yet, it starts optimistically and lets
    /// the supervisor's health and backoff policy recover.
    pub fn new(first_probe: Result<bool, NetworkProbeError>) -> (r: Self)
        ensures
            r@ == match first_probe {
                Ok(available) => available,
                Err(_) => true,
            },
    {
        let available = match first_probe {
            Ok(available) => available,
            Err(_) => true,
        };
        Self::with_initial(available)
    }

    /// A monitor with a known initial observation.
    pub fn with_initial(available: bool) -> (r: Self)
        ensures
            r@ == available,
    {
        NetworkMonitor { available }
    }

    pub fn available(&self) -> (r: bool)
        ensures
            r == self@,
    {
        self.available
    }

    /// Records a probe result.  `Ok(Some(..))` is a confirmed transition;
    /// an error leaves the previous observation untouched.
    pub fn refresh(&mut self, probe: Result<bool, NetworkProbeError>) -> (r: Result<
        Option<bool>,
        NetworkProbeError,
    >)
        ensures
            match probe {
                Ok(available) => {
                    &&& final(self)@ == available
                    &&& r == Ok::<Option<bool>, NetworkProbeError>(
                        if available == old(self)@ {
                            None
                        } else {
                            Some(available)
                        },
                    )
                },
                Err(e) => final(self)@ == old(self)@ && r == Err::<Option<bool>, NetworkProbeError>(
                    e,
                ),
            },
    {
        match probe {
            Ok(available) => Ok(self.observe(available)),
            Err(e) => Err(e),
        }
    }

    /// Records an observation and returns it only when it changed.
    pub fn observe(&mut self, available: bool) -> (r: Option<bool>)
        ensures
            final(self)@ == available,
            r == if available == old(self)@ {
                None
            } else {
                Some(available)
            },
    {
        if self.available == available {
            return None;
        }
        self.available = available;
        Some(available)
    }
}

} // verus!
