//! The data model of the target space: endpoints and work descriptors.

use vstd::prelude::*;

verus! {

/// One network endpoint: an IPv4 address (as its 32-bit big-endian value)
/// and a port. The local endpoint of a descriptor uses address 0 (the
/// unspecified address) when only the local port matters.
#[derive(Clone, Copy, Debug, PartialEq, Eq, Structural)]
pub struct Endpoint {
    pub ip: u32,
    pub port: u16,
}

/// One unit of work: originate from `local`, drive one session against
/// `remote`. Descriptors are generated once, never mutated, and consumed
/// exactly once by the scheduler.
#[derive(Clone, Copy, Debug, PartialEq, Eq, Structural)]
pub struct WorkDescriptor {
    pub local: Endpoint,
    pub remote: Endpoint,
}

impl Endpoint {
    /// An endpoint on the unspecified local address, identified by port only.
    pub fn unspecified(port: u16) -> (e: Endpoint)
        ensures
            e == (Endpoint { ip: 0u32, port }),
    {
        Endpoint { ip: 0, port }
    }
}

} // verus!
