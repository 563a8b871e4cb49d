//! The identity of a device: its public number, its secret and its nickname.

use vstd::prelude::*;

verus! {

#[derive(Clone, Debug, PartialEq, Eq)]
pub struct DeviceIdentity {
    /// The nine-digit public number, given by the server.
    pub public_id: String,
    /// The secret that authenticates the device to the server.
    pub client_secret: String,
    /// A name for people.
    pub alias: Option<String>,
}

impl DeviceIdentity {
    pub fn new(public_id: &str, client_secret: &str) -> (d: DeviceIdentity)
        ensures
            d.public_id@ == public_id@,
            d.client_secret@ == client_secret@,
            d.alias is None,
    {
        DeviceIdentity {
            public_id: public_id.to_owned(),
            client_secret: client_secret.to_owned(),
            alias: None,
        }
    }
}

/// A device is who it was said to be, and has no name of its own yet.
pub proof fn law_identity(id: &str, secret: &str, d: DeviceIdentity)
    requires
        call_ensures(DeviceIdentity::new, (id, secret), d),
    ensures
        d.public_id@ == id@ && d.client_secret@ == secret@ && d.alias is None,
{
}

} // verus!
