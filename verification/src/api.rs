//! Service-level descriptors: the health report and the set of routes
//! that the boundary mounts for this subsystem.

use vstd::prelude::*;
use vstd::string::StringExecFns;

verus! {

/// Health report returned by the service's liveness endpoint.
pub struct Health {
    pub healthy: bool,
}

/// The liveness answer: the service reports itself healthy.
pub fn health() -> (r: Health)
    ensures
        r.healthy,
{
    Health { healthy: true }
}

/// The message of the not-found answer the stream endpoint gives for an
/// unknown container id.
pub fn not_found_message(id: &str) -> (r: String)
    ensures
        r@ == "Container "@ + id@ + " not found"@,
{
    let mut r = String::from_str("Container ");
    r.append(id);
    r.append(" not found");
    r
}

/// HTTP method of a mounted route.
pub enum Method {
    Get,
    Post,
}

/// One route that the boundary mounts: its method and its path pattern.
pub struct RouteSpec {
    pub method: Method,
    pub path: String,
}

/// The routes of this subsystem: registration and the per-container
/// event stream.
pub fn routes() -> (r: Vec<RouteSpec>)
    ensures
        r@.len() == 2,
        r@[0].method is Post,
        r@[0].path@ == "/register"@,
        r@[1].method is Get,
        r@[1].path@ == "/<id>/<key>"@,
{
    let mut v: Vec<RouteSpec> = Vec::new();
    v.push(RouteSpec { method: Method::Post, path: String::from_str("/register") });
    v.push(RouteSpec { method: Method::Get, path: String::from_str("/<id>/<key>") });
    v
}

} // verus!
