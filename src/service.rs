//! Replies of the local tool-service registry commands.
use vstd::prelude::*;
use crate::provider::join;

verus! {

/// The reply to a start or stop request of a tool service.
#[derive(Debug, Clone, PartialEq, Eq)]
pub struct ServiceResponse {
    pub success: bool,
    pub message: String,
}

impl ServiceResponse {
    /// The service `name` was started.
    pub fn started(name: &str) -> (r: ServiceResponse)
        ensures
            r.success,
            r.message@ == "Service "@ + name@ + " started successfully"@,
    {
        let m = join("Service ", name);
        ServiceResponse { success: true, message: join(m.as_str(), " started successfully") }
    }

    /// The service `name` was stopped.
    pub fn stopped(name: &str) -> (r: ServiceResponse)
        ensures
            r.success,
            r.message@ == "Service "@ + name@ + " stopped successfully"@,
    {
        let m = join("Service ", name);
        ServiceResponse { success: true, message: join(m.as_str(), " stopped successfully") }
    }

    /// No service is registered under `name`.
    pub fn not_found(name: &str) -> (r: ServiceResponse)
        ensures
            !r.success,
            r.message@ == "Service "@ + name@ + " not found"@,
    {
        let m = join("Service ", name);
        ServiceResponse { success: false, message: join(m.as_str(), " not found") }
    }
}

} // verus!
