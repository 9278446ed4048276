//! TCP ports a driver process listens on.
use vstd::prelude::*;

use crate::text::{decimal, decimal_string};

verus! {

/// A TCP port number.
#[derive(Debug, Clone, Copy, PartialEq, Eq, Structural)]
pub struct Port(pub u16);

impl From<u16> for Port {
    fn from(value: u16) -> (r: Port)
        ensures
            r.0 == value,
    {
        Port(value)
    }
}

impl vstd::std_specs::convert::FromSpecImpl<u16> for Port {
    open spec fn obeys_from_spec() -> bool {
        true
    }

    open spec fn from_spec(v: u16) -> Port {
        Port(v)
    }
}

impl AsRef<u16> for Port {
    fn as_ref(&self) -> (r: &u16)
        ensures
            *r == self.0,
    {
        &self.0
    }
}

impl Port {
    /// The port number in decimal, as it appears in a URL or a command line.
    pub fn to_string(&self) -> (r: String)
        ensures
            r@ == decimal(self.0 as nat),
    {
        decimal_string(self.0 as u32)
    }
}

/// Which port a driver process should listen on.
#[derive(Debug, Clone, Copy, PartialEq, Eq, Structural)]
pub enum PortRequest {
    /// Let the operating system pick a free port; it is learned once the
    /// process reports readiness.
    Any,
    /// Listen on exactly this port.
    Specific(Port),
}

} // verus!
