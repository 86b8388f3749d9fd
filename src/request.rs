//! What the gateway reads of an incoming request.

use vstd::prelude::*;
use crate::cidr::IpAddr;

verus! {

/// The client's socket address, with its text as the platform's socket
/// API writes it.
#[derive(Clone, Debug)]
pub struct SocketAddr {
    pub ip: IpAddr,
    pub port: u16,
    /// The address alone, as text.
    pub ip_text: String,
    /// The address and port, as text (`1.2.3.4:80`, `[::1]:80`).
    pub text: String,
}

/// The head of a request: method, path, query, headers (in order, names as
/// received) and the client's address when it is an IP socket.
#[derive(Clone, Debug)]
pub struct RequestHead {
    pub method: String,
    pub path: String,
    pub query: Option<String>,
    pub headers: Vec<(String, String)>,
    pub remote: Option<SocketAddr>,
}

} // verus!
