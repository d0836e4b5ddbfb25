//! Request and response shapes of the content endpoints.

use vstd::prelude::*;

verus! {

/// An uploaded file payload.
#[derive(Debug)]
pub struct UploadFile {
    pub file: Vec<u8>,
}

/// A content id as it arrives in a request path.
#[derive(Debug)]
pub struct ContentId {
    pub id: String,
}

/// Descriptive details of a content item.
#[derive(Debug)]
pub struct ContentDetails {
    pub id: String,
    pub title: String,
    pub description: String,
    pub output_type: String,
    pub input_type: String,
    pub author: String,
    pub tags: Vec<String>,
    pub version: String,
}

impl ContentDetails {
    /// Gathers the details of a content item.
    pub fn new(
        id: String,
        title: String,
        description: String,
        output_type: String,
        input_type: String,
        author: String,
        tags: Vec<String>,
        version: String,
    ) -> (r: ContentDetails)
        ensures
            r.id@ == id@,
            r.title@ == title@,
            r.description@ == description@,
            r.output_type@ == output_type@,
            r.input_type@ == input_type@,
            r.author@ == author@,
            r.tags@ == tags@,
            r.version@ == version@,
    {
        ContentDetails { id, title, description, output_type, input_type, author, tags, version }
    }
}

} // verus!
