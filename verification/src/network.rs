//! Where connections go.
use vstd::prelude::*;
use vstd::string::*;

verus! {

/// The connector that opens real TCP connections, optionally wrapped in TLS.
pub struct RealNetworkConnector;

/// The address a connection is opened to: host and port joined by `:`.
pub open spec fn socket_address_text(ip: Seq<char>, port: Seq<char>) -> Seq<char> {
    ip + ":"@ + port
}

/// The address a connection is opened to: host and port joined by `:`.
pub fn socket_address(ip: &str, port: &str) -> (addr: String)
    ensures
        addr@ == socket_address_text(ip@, port@),
{
    let mut addr = String::from_str(ip);
    addr.append(":");
    addr.append(port);
    addr
}

} // verus!
