//! The health endpoints' replies.

use vstd::prelude::*;

verus! {

/// The body of the health endpoints.
#[derive(Debug)]
pub struct HealthResponse {
    pub status: String,
}

/// The readiness reply.
pub fn get_ready() -> (r: HealthResponse)
    ensures
        r.status@ == "ready"@,
{
    HealthResponse { status: String::from_str("ready") }
}

/// The liveness reply.
pub fn get_health() -> (r: HealthResponse)
    ensures
        r.status@ == "healthy"@,
{
    HealthResponse { status: String::from_str("healthy") }
}

} // verus!
