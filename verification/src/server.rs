//! The server: where it listens.

use vstd::prelude::*;
use vstd::string::*;

use crate::text::{decimal, decimal_string};

verus! {

/// The address and the port to listen on.
pub struct ServerOptions {
    pub address: String,
    pub port: usize,
}

/// The text that names `address` and `port` together: the address, a colon,
/// and the port in base ten.
pub open spec fn target_of(address: Seq<char>, port: nat) -> Seq<char> {
    address + seq![':'] + decimal(port)
}

/// A server that knows the target it is to listen on.
pub struct Server {
    target: String,
}

impl Server {
    /// The target the server listens on.
    pub closed spec fn spec_target(&self) -> Seq<char> {
        self.target@
    }

    /// A server for the address and port of `options`.
    pub fn new(options: ServerOptions) -> (server: Server)
        ensures
            server.spec_target() == target_of(options.address@, options.port as nat),
    {
        proof {
            reveal_strlit(":");
        }
        let port = decimal_string(options.port);
        let target = options.address.concat(":").concat(port.as_str());
        assert(target@ =~= target_of(options.address@, options.port as nat));
        Server { target }
    }

    /// The target the server listens on.
    pub fn target(&self) -> (target: &str)
        ensures
            target@ == self.spec_target(),
    {
        self.target.as_str()
    }
}

} // verus!
