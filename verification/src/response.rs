//! Shared Kagi response envelopes, excluding unstable debugging metadata.

use vstd::prelude::*;

verus! {

/// Structured Kagi response with endpoint-specific data.
pub struct KagiResponse<T> {
    /// Endpoint data, absent on some failures.
    pub data: Option<T>,
    /// Endpoint-level failures, including errors returned with a success status.
    pub errors: Option<Vec<KagiError>>,
}

/// Endpoint-level failure reported by Kagi.
pub struct KagiError {
    /// Namespaced failure code.
    pub code: String,
    /// Optional human-readable explanation.
    pub message: Option<String>,
}

impl<T> KagiResponse<T> {
    /// The reported errors, none when absent.
    pub open spec fn error_list(&self) -> Seq<KagiError> {
        match self.errors {
            Some(e) => e@,
            None => seq![],
        }
    }
}

} // verus!
