//! The content record.
//!
//! A `Program` is the metadata document kept for one uploaded file: who
//! owns it, the name it is stored under, where its payload lives in the
//! object store, and the payload's size, type and digest.  The record is
//! created on the first upload for an owner and base name, rewritten in
//! place on later uploads that match the same base name, and removed
//! together with its stored object.

use vstd::prelude::*;
use crate::ids::RecordId;

verus! {

/// Mathematical model of a content record.
pub ghost struct ProgramModel {
    pub id: RecordId,
    pub owner_id: int,
    pub filename: Seq<u8>,
    pub code_url: Seq<u8>,
    pub content_type: Seq<u8>,
    pub file_size: int,
    pub input_type: Seq<u8>,
    pub output_type: Seq<u8>,
    pub upload_time: int,
    pub update_time: int,
    pub file_path: Seq<u8>,
    pub file_hash: Seq<u8>,
}

/// A persisted content record.
#[derive(Debug)]
pub struct Program {
    pub id: RecordId,
    pub owner_id: i32,
    pub filename: Vec<u8>,
    pub code_url: Vec<u8>,
    pub content_type: Vec<u8>,
    pub file_size: i64,
    pub input_type: Vec<u8>,
    pub output_type: Vec<u8>,
    pub upload_time: i64,
    pub update_time: i64,
    pub file_path: Vec<u8>,
    pub file_hash: Vec<u8>,
}

impl View for Program {
    type V = ProgramModel;

    open spec fn view(&self) -> ProgramModel {
        ProgramModel {
            id: self.id,
            owner_id: self.owner_id as int,
            filename: self.filename@,
            code_url: self.code_url@,
            content_type: self.content_type@,
            file_size: self.file_size as int,
            input_type: self.input_type@,
            output_type: self.output_type@,
            upload_time: self.upload_time as int,
            update_time: self.update_time as int,
            file_path: self.file_path@,
            file_hash: self.file_hash@,
        }
    }
}

impl Clone for Program {
    /// A clone carries the same record contents.
    fn clone(&self) -> (r: Self)
        ensures
            r@ == self@,
    {
        Program {
            id: self.id,
            owner_id: self.owner_id,
            filename: self.filename.clone(),
            code_url: self.code_url.clone(),
            content_type: self.content_type.clone(),
            file_size: self.file_size,
            input_type: self.input_type.clone(),
            output_type: self.output_type.clone(),
            upload_time: self.upload_time,
            update_time: self.update_time,
            file_path: self.file_path.clone(),
            file_hash: self.file_hash.clone(),
        }
    }
}

} // verus!
