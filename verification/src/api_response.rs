//! The response envelope returned by the upload endpoints.

use vstd::prelude::*;

verus! {

/// A message with the optional id and access URL of the record it
/// concerns.
#[derive(Debug)]
pub struct ApiResponse {
    pub message: String,
    pub id: Option<String>,
    pub code_url: Option<String>,
}

impl ApiResponse {
    /// Wraps a message with the optional record id and access URL.
    pub fn new(message: String, id: Option<String>, code_url: Option<String>) -> (r: ApiResponse)
        ensures
            r.message@ == message@,
            r.id == id,
            r.code_url == code_url,
    {
        ApiResponse { message, id, code_url }
    }
}

} // verus!
