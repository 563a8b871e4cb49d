//! Network addresses.

use vstd::prelude::*;

verus! {

/// An address and a port.
#[derive(Clone, Copy, Debug, PartialEq, Eq, Structural)]
pub enum SocketAddr {
    /// Address and port.
    V4(u32, u16),
    /// Address, port, flow information and scope.
    V6(u128, u16, u32, u32),
}

} // verus!
