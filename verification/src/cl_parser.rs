//! The server's configuration, as plain values.

use vstd::prelude::*;
use vstd::string::*;

verus! {

/// Where the server listens: the text of an IP address, and a port. Port 0
/// leaves the choice of the port to the operating system.
#[derive(Debug, Clone, PartialEq, Eq)]
pub struct ClArgs {
    ip: String,
    port: u16,
}

impl ClArgs {
    /// The text of the default address: IPv4 loopback.
    pub open spec fn default_ip() -> Seq<char> {
        "127.0.0.1"@
    }

    /// The address text that was configured.
    pub closed spec fn spec_ip(&self) -> Seq<char> {
        self.ip@
    }

    /// The port that was configured.
    pub closed spec fn spec_port(&self) -> u16 {
        self.port
    }

    /// A configuration with the given address text and port.
    pub fn new(ip: String, port: u16) -> (args: Self)
        ensures
            args.spec_ip() == ip@,
            args.spec_port() == port,
    {
        ClArgs { ip, port }
    }

    /// The address text.
    pub fn ip(&self) -> (ip: &str)
        ensures
            ip@ == self.spec_ip(),
    {
        self.ip.as_str()
    }

    /// The port.
    #[verifier::when_used_as_spec(spec_port)]
    pub fn port(&self) -> (port: u16)
        ensures
            port == self.spec_port(),
    {
        self.port
    }
}

impl Default for ClArgs {
    /// Loopback, and a port that the operating system picks.
    fn default() -> (args: Self)
        ensures
            args.spec_ip() == ClArgs::default_ip(),
            args.spec_port() == 0,
    {
        ClArgs { ip: String::from_str("127.0.0.1"), port: 0 }
    }
}

} // verus!
