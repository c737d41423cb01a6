//! What client and server say to each other over HTTP, as plain values, and
//! where the client finds the server.

pub mod body;
pub mod response;
pub mod ws;

use crate::server::Endpoint;
use vstd::prelude::*;
use vstd::string::StringExecFns;

verus! {

/// Where the server listens.
pub open spec fn base_url() -> Seq<char> {
    "http://localhost:8000"@
}

/// The address of an endpoint: the server's address, a slash, and the path of
/// the endpoint.
pub open spec fn address(endpoint: Endpoint) -> Seq<char> {
    base_url() + "/"@ + endpoint.path_view()
}

pub fn api_path(endpoint: Endpoint) -> (r: String)
    ensures
        r@ == address(endpoint),
{
    let mut url = String::from_str("http://localhost:8000");
    url.append("/");
    url.append(endpoint.path());
    url
}

} // verus!
