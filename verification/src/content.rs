//! Content metadata operations: look up a record by id, apply a sparse
//! metadata update, and delete a record together with its stored object.
//!
//! Deletion removes the backing object before the database record: when
//! the object-store delete fails the record is left untouched, so a
//! record never outlives the deletion of its object by design, at the
//! cost of a possibly orphaned object.

use vstd::prelude::*;
use crate::error::{ContentError, ErrorKind};
use crate::ids::{id_of_text, is_valid_id_text, parse_record_id};
use crate::program::{Program, ProgramModel};
use crate::repo::{contains_rec_id, rec_id_index, ContentRepo};
use crate::store::ObjectStore;
use crate::update_program_dto::{apply_entries, UpdateProgramDto};

verus! {

/// What a deletion found.
#[derive(Clone, Copy, PartialEq, Eq, Structural, Debug)]
pub enum DeleteOutcome {
    /// The record and its object were removed.
    Deleted,
    /// No record carries the id.
    NotFound,
}

/// Looks up the record addressed by a textual id.
///
/// A malformed id is rejected; an absent record is reported as not
/// found.
pub fn get_details<'a>(repo: &'a ContentRepo, id_text: &[u8]) -> (r: Result<
    &'a Program,
    ContentError,
>)
    requires
        repo.wf(),
    ensures
        !is_valid_id_text(id_text@) ==> (r matches Err(e) && e.kind() == ErrorKind::Validation),
        is_valid_id_text(id_text@) && !contains_rec_id(repo@, id_of_text(id_text@)) ==> (r matches
            Err(e) && e.kind() == ErrorKind::NotFound),
        is_valid_id_text(id_text@) && contains_rec_id(repo@, id_of_text(id_text@)) ==> (r matches
            Ok(p) && p@ == repo@[rec_id_index(repo@, id_of_text(id_text@))]),
{
    let id = match parse_record_id(id_text) {
        Some(id) => id,
        None => {
            return Err(ContentError::Validation("Invalid ID format".to_owned()));
        },
    };
    match repo.find_by_id(id) {
        Some(p) => Ok(p),
        None => Err(ContentError::NotFound),
    }
}

/// Applies a sparse metadata update to the record addressed by a textual
/// id, stamping its last-updated instant.
///
/// A malformed id is rejected and an absent record reported as not
/// found, in both cases with the repository unchanged; otherwise exactly
/// the fields present in the request are rewritten.
pub fn update_metadata(
    repo: &mut ContentRepo,
    id_text: &[u8],
    dto: &UpdateProgramDto,
    now: i64,
) -> (r: Result<(), ContentError>)
    requires
        old(repo).wf(),
    ensures
        final(repo).wf(),
        !is_valid_id_text(id_text@) ==> (r matches Err(e) && e.kind() == ErrorKind::Validation
            && final(repo)@ == old(repo)@),
        is_valid_id_text(id_text@) && !contains_rec_id(old(repo)@, id_of_text(id_text@)) ==> (r
            matches Err(e) && e.kind() == ErrorKind::NotFound && final(repo)@ == old(repo)@),
        is_valid_id_text(id_text@) && contains_rec_id(old(repo)@, id_of_text(id_text@)) ==> (r
            matches Ok(u) && u == () && final(repo)@ == old(repo)@.update(
            rec_id_index(old(repo)@, id_of_text(id_text@)),
            (ProgramModel {
                update_time: now as int,
                ..apply_entries(
                    old(repo)@[rec_id_index(old(repo)@, id_of_text(id_text@))],
                    crate::update_program_dto::patch_entries(dto@),
                )
            }),
        )),
{
    let id = match parse_record_id(id_text) {
        Some(id) => id,
        None => {
            return Err(ContentError::Validation("Invalid ID format".to_owned()));
        },
    };
    let doc = dto.build_update_document();
    let matched = repo.patch_by_id(id, &doc, now);
    if matched == 1 {
        Ok(())
    } else {
        Err(ContentError::NotFound)
    }
}

/// Deletes the record addressed by a textual id together with its stored
/// object.
///
/// The object is removed from the store first; when that removal fails
/// the whole operation fails and the database record stays untouched and
/// retrievable.  Only after the object is gone is the record removed.
pub fn delete(repo: &mut ContentRepo, store: &mut ObjectStore, id_text: &[u8]) -> (r: Result<
    DeleteOutcome,
    ContentError,
>)
    requires
        old(repo).wf(),
        old(store).wf(),
    ensures
        final(repo).wf(),
        final(store).wf(),
        final(store)@.bucket == old(store)@.bucket,
        final(store)@.fail_put == old(store)@.fail_put,
        final(store)@.fail_delete == old(store)@.fail_delete,
        !is_valid_id_text(id_text@) ==> (r matches Err(e) && e.kind() == ErrorKind::Validation
            && final(repo)@ == old(repo)@ && final(store)@ == old(store)@),
        is_valid_id_text(id_text@) && !contains_rec_id(old(repo)@, id_of_text(id_text@)) ==> (r
            matches Ok(o) && o == DeleteOutcome::NotFound && final(repo)@ == old(repo)@ && final(store)@ == old(store)@),
        is_valid_id_text(id_text@) && contains_rec_id(old(repo)@, id_of_text(id_text@)) && old(store)@.fail_delete ==> (r matches Err(e) && e.kind() == ErrorKind::Dependency && final(repo)@
            == old(repo)@ && final(store)@ == old(store)@),
        is_valid_id_text(id_text@) && contains_rec_id(old(repo)@, id_of_text(id_text@)) && !old(store)@.fail_delete ==> (r matches Ok(o) && o == DeleteOutcome::Deleted && final(repo)@ == old(repo)@.remove(rec_id_index(old(repo)@, id_of_text(id_text@))) && final(store)@.objects == old(store)@.objects.remove(old(repo)@[rec_id_index(old(repo)@, id_of_text(id_text@))].file_path)),
{
    let id = match parse_record_id(id_text) {
        Some(id) => id,
        None => {
            return Err(ContentError::Validation("Invalid ID format".to_owned()));
        },
    };
    let path: Vec<u8>;
    match repo.find_by_id(id) {
        Some(rec) => {
            path = rec.file_path.clone();
        },
        None => {
            return Ok(DeleteOutcome::NotFound);
        },
    }
    match store.delete(path.as_slice()) {
        Ok(_) => {},
        Err(e) => {
            return Err(e);
        },
    }
    let removed = repo.delete_by_id(id);
    if removed == 1 {
        Ok(DeleteOutcome::Deleted)
    } else {
        Ok(DeleteOutcome::NotFound)
    }
}

} // verus!

