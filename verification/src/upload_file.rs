//! The shapes of upload requests: a plain file upload, and the group
//! uploads that carry a group and an optional message reference.

use vstd::prelude::*;

verus! {

/// A file upload with its owner.
#[derive(Debug)]
pub struct UploadFile {
    pub file: Vec<u8>,
    pub owner_id: i32,
}

/// A file uploaded on behalf of a group.
#[derive(Debug)]
pub struct UploadGroupFile {
    pub file: Vec<u8>,
    pub group_id: i32,
    pub owner_id: i32,
}

/// A group upload that may reference a message.
#[derive(Debug)]
pub struct UploadGroup {
    pub file: Vec<u8>,
    pub group_id: i32,
    pub owner_id: i32,
    pub message_id: Option<i32>,
}

} // verus!
