//! The verified core of a remote-desktop and remote-control suite.

use vstd::prelude::*;

pub mod addr;
pub mod bytes;
pub mod capture;
pub mod connect;
pub mod connection;
pub mod controller;
pub mod crypto;
pub mod desktop;
pub mod encode;
pub mod files;
pub mod host;
pub mod identity;
pub mod input;
pub mod json;
pub mod managed;
pub mod media;
pub mod outbox;
pub mod password;
pub mod portable;
pub mod relay;
pub mod service;
pub mod session;
pub mod signal;
pub mod text;
pub mod time;
pub mod transfers;
pub mod wasm;
pub mod wol;

verus! {

/// The library's version.
pub const VERSION: &'static str = "0.1.0";

/// The product name shown to users.
pub fn product() -> (name: &'static str)
    ensures
        name@ == "ZortilWatch"@,
{
    "ZortilWatch"
}

} // verus!
