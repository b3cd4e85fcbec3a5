//! What the service calls itself.

use vstd::prelude::*;

verus! {

/// The name of the service.
pub const SERVICE_NAME: &'static str = "dd-in-house-mip-solver-node";

/// What the service is.
pub const SERVICE_DESCRIPTION: &'static str = "In-house LP solver plus distributed MIP/IP \
    branch-and-bound node with NATS JetStream master/slave execution.";

/// The schema of the description of the endpoints.
pub const API_DOCS_SCHEMA: &'static str = "dd.service-docs.v1";

}
