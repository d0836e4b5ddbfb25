use content_crafters::content::{delete, get_details, update_metadata, DeleteOutcome};
use content_crafters::error::{ContentError, ErrorKind};
use content_crafters::ids::RecordId;
use content_crafters::reconcile::{reconcile, reconcile_at, resolve_content_type};
use content_crafters::repo::ContentRepo;
use content_crafters::store::ObjectStore;
use content_crafters::update_program_dto::UpdateProgramDto;

fn new_state() -> (ContentRepo, ObjectStore) {
    (ContentRepo::new(), ObjectStore::new(b"test-bucket".to_vec()))
}

fn no_update() -> UpdateProgramDto {
    UpdateProgramDto {
        filename: None,
        code_url: None,
        content_type: None,
        file_size: None,
        input_type: None,
        output_type: None,
        file_path: None,
    }
}

#[test]
fn first_upload_creates_record_with_stored_object() {
    let (mut repo, mut store) = new_state();
    let id = RecordId { hi: 1, lo: 2 };
    let (rec, is_new) =
        reconcile_at(&mut repo, &mut store, 42, b"report.txt", b"text/plain", &[7u8; 10], 1000, id)
            .unwrap();
    assert!(is_new);
    assert_eq!(rec.id, id);
    assert_eq!(rec.owner_id, 42);
    assert_eq!(rec.file_size, 10);
    assert_eq!(rec.upload_time, 1000);
    assert_eq!(rec.update_time, 1000);
    assert_eq!(repo.record_count(), 1);
    // the storage path round-trips through the object store
    let obj = store.get_object(&rec.file_path).unwrap();
    assert_eq!(obj.bytes, vec![7u8; 10]);
    assert_eq!(obj.content_type, b"text/plain".to_vec());
    // path and URL embed the owner, id and instant
    assert_eq!(
        rec.file_path,
        b"content%2F42%2Freport-000000000001000000000002-1000.txt".to_vec()
    );
    let mut url = b"https://firebasestorage.googleapis.com/v0/b/test-bucket/o/".to_vec();
    url.extend_from_slice(&rec.file_path);
    url.extend_from_slice(b"?alt=media");
    assert_eq!(rec.code_url, url);
}

#[test]
fn reupload_same_base_reuses_record_and_drops_old_object() {
    let (mut repo, mut store) = new_state();
    let id1 = RecordId { hi: 1, lo: 1 };
    let (rec1, is_new1) =
        reconcile_at(&mut repo, &mut store, 42, b"report.txt", b"text/plain", &[0u8; 10], 1000, id1)
            .unwrap();
    assert!(is_new1);
    let old_path = rec1.file_path.clone();

    let id2 = RecordId { hi: 2, lo: 2 };
    let (rec2, is_new2) =
        reconcile_at(&mut repo, &mut store, 42, b"report.csv", b"text/csv", &[1u8; 20], 2000, id2)
            .unwrap();
    assert!(!is_new2);
    assert_eq!(rec2.id, rec1.id);
    assert_eq!(rec2.file_size, 20);
    assert_eq!(rec2.upload_time, 1000);
    assert_eq!(rec2.update_time, 2000);
    assert_eq!(repo.record_count(), 1);
    // the previously stored object is no longer retrievable
    assert!(store.get_object(&old_path).is_none());
    let obj = store.get_object(&rec2.file_path).unwrap();
    assert_eq!(obj.bytes, vec![1u8; 20]);

    // a different owner with the same filename gets a distinct record
    let id3 = RecordId { hi: 3, lo: 3 };
    let (rec3, is_new3) =
        reconcile_at(&mut repo, &mut store, 99, b"report.txt", b"text/plain", &[2u8; 5], 3000, id3)
            .unwrap();
    assert!(is_new3);
    assert_ne!(rec3.id, rec1.id);
    assert_eq!(repo.record_count(), 2);
}

#[test]
fn reupload_matches_base_case_insensitively() {
    let (mut repo, mut store) = new_state();
    let id1 = RecordId { hi: 4, lo: 4 };
    let (_rec1, is_new1) =
        reconcile_at(&mut repo, &mut store, 7, b"Report.txt", b"text/plain", &[0u8; 3], 100, id1)
            .unwrap();
    assert!(is_new1);
    let id2 = RecordId { hi: 5, lo: 5 };
    let (_rec2, is_new2) =
        reconcile_at(&mut repo, &mut store, 7, b"REPORT.md", b"text/markdown", &[1u8; 4], 200, id2)
            .unwrap();
    assert!(!is_new2);
    assert_eq!(repo.record_count(), 1);
}

#[test]
fn empty_filename_is_rejected_before_any_work() {
    let (mut repo, mut store) = new_state();
    let id = RecordId { hi: 1, lo: 1 };
    let r = reconcile_at(&mut repo, &mut store, 42, b"", b"text/plain", &[0u8; 4], 1000, id);
    match r {
        Err(e) => assert_eq!(e.error_kind(), ErrorKind::Validation),
        Ok(_) => panic!("empty filename accepted"),
    }
    assert_eq!(repo.record_count(), 0);
    assert_eq!(store.object_count(), 0);
}

#[test]
fn zero_length_payload_is_permitted() {
    let (mut repo, mut store) = new_state();
    let id = RecordId { hi: 1, lo: 1 };
    let (rec, is_new) =
        reconcile_at(&mut repo, &mut store, 42, b"empty.bin", b"application/octet-stream", &[], 50, id)
            .unwrap();
    assert!(is_new);
    assert_eq!(rec.file_size, 0);
    assert_eq!(store.get_object(&rec.file_path).unwrap().bytes, Vec::<u8>::new());
}

#[test]
fn filename_without_extension_is_accepted() {
    let (mut repo, mut store) = new_state();
    let id = RecordId { hi: 6, lo: 6 };
    let (rec, _) =
        reconcile_at(&mut repo, &mut store, 1, b"makefile", b"text/plain", &[9u8; 2], 77, id)
            .unwrap();
    assert_eq!(rec.filename, b"makefile-000000000006000000000006-77".to_vec());
    assert_eq!(repo.record_count(), 1);
}

#[test]
fn failed_upload_aborts_without_database_write() {
    let (mut repo, mut store) = new_state();
    store.set_fail_put(true);
    let id = RecordId { hi: 1, lo: 1 };
    let r = reconcile_at(&mut repo, &mut store, 42, b"a.txt", b"text/plain", &[0u8; 4], 1000, id);
    match r {
        Err(e) => assert_eq!(e.error_kind(), ErrorKind::Dependency),
        Ok(_) => panic!("put failure ignored"),
    }
    assert_eq!(repo.record_count(), 0);
    assert_eq!(store.object_count(), 0);
}

#[test]
fn failed_delete_of_old_object_aborts_replacement() {
    let (mut repo, mut store) = new_state();
    let id1 = RecordId { hi: 1, lo: 1 };
    let (rec1, _) =
        reconcile_at(&mut repo, &mut store, 42, b"a.txt", b"text/plain", &[0u8; 4], 1000, id1)
            .unwrap();
    store.set_fail_delete(true);
    let id2 = RecordId { hi: 2, lo: 2 };
    let r = reconcile_at(&mut repo, &mut store, 42, b"a.txt", b"text/plain", &[1u8; 8], 2000, id2);
    match r {
        Err(e) => assert_eq!(e.error_kind(), ErrorKind::Dependency),
        Ok(_) => panic!("delete failure ignored"),
    }
    // the record and its old object are untouched
    assert_eq!(repo.record_count(), 1);
    assert_eq!(store.get_object(&rec1.file_path).unwrap().bytes, vec![0u8; 4]);
}

#[test]
fn delete_with_failing_store_keeps_record_retrievable() {
    let (mut repo, mut store) = new_state();
    let id = RecordId { hi: 1, lo: 1 };
    let (rec, _) =
        reconcile_at(&mut repo, &mut store, 42, b"a.txt", b"text/plain", &[0u8; 4], 1000, id)
            .unwrap();
    let id_text = rec.id.to_hex_bytes();
    store.set_fail_delete(true);
    let r = delete(&mut repo, &mut store, &id_text);
    match r {
        Err(e) => assert_eq!(e.error_kind(), ErrorKind::Dependency),
        Ok(_) => panic!("delete failure ignored"),
    }
    // still retrievable by id, and the object is still there
    assert!(get_details(&repo, &id_text).is_ok());
    assert!(store.get_object(&rec.file_path).is_some());

    store.set_fail_delete(false);
    let outcome = delete(&mut repo, &mut store, &id_text).unwrap();
    assert_eq!(outcome, DeleteOutcome::Deleted);
    assert!(get_details(&repo, &id_text).is_err());
    assert!(store.get_object(&rec.file_path).is_none());
}

#[test]
fn delete_rejects_malformed_id_and_reports_missing_record() {
    let (mut repo, mut store) = new_state();
    match delete(&mut repo, &mut store, b"not-a-valid-id") {
        Err(e) => assert_eq!(e.error_kind(), ErrorKind::Validation),
        Ok(_) => panic!("malformed id accepted"),
    }
    let outcome = delete(&mut repo, &mut store, b"0123456789abcdef01234567").unwrap();
    assert_eq!(outcome, DeleteOutcome::NotFound);
}

#[test]
fn update_metadata_rewrites_exactly_the_present_fields() {
    let (mut repo, mut store) = new_state();
    let id = RecordId { hi: 1, lo: 1 };
    let (rec, _) =
        reconcile_at(&mut repo, &mut store, 42, b"a.txt", b"text/plain", &[0u8; 4], 1000, id)
            .unwrap();
    let id_text = rec.id.to_hex_bytes();
    let mut dto = no_update();
    dto.filename = Some(b"renamed.txt".to_vec());
    update_metadata(&mut repo, &id_text, &dto, 5000).unwrap();
    let updated = get_details(&repo, &id_text).unwrap();
    assert_eq!(updated.filename, b"renamed.txt".to_vec());
    assert_eq!(updated.update_time, 5000);
    // untouched fields keep their values
    assert_eq!(updated.file_size, rec.file_size);
    assert_eq!(updated.code_url, rec.code_url);
    assert_eq!(updated.upload_time, rec.upload_time);
}

#[test]
fn update_metadata_reports_missing_and_malformed_ids() {
    let (mut repo, _store) = new_state();
    let dto = no_update();
    match update_metadata(&mut repo, b"zz", &dto, 1) {
        Err(e) => assert_eq!(e.error_kind(), ErrorKind::Validation),
        Ok(_) => panic!("malformed id accepted"),
    }
    match update_metadata(&mut repo, b"0123456789abcdef01234567", &dto, 1) {
        Err(e) => assert_eq!(e.error_kind(), ErrorKind::NotFound),
        Ok(_) => panic!("missing record updated"),
    }
}

#[test]
fn reconcile_with_generated_id_and_clock() {
    let (mut repo, mut store) = new_state();
    let (rec, is_new) =
        reconcile(&mut repo, &mut store, 8, b"live.txt", b"text/plain", &[3u8; 6]).unwrap();
    assert!(is_new);
    assert_eq!(rec.file_size, 6);
    assert_eq!(store.get_object(&rec.file_path).unwrap().bytes, vec![3u8; 6]);
}

#[test]
fn content_type_defaults_to_octet_stream() {
    assert_eq!(resolve_content_type(None), b"application/octet-stream".to_vec());
    assert_eq!(resolve_content_type(Some(b"text/plain".to_vec())), b"text/plain".to_vec());
}

#[test]
fn records_of_owner_filters_by_owner() {
    let (mut repo, mut store) = new_state();
    let a = RecordId { hi: 1, lo: 1 };
    let b = RecordId { hi: 2, lo: 2 };
    let c = RecordId { hi: 3, lo: 3 };
    reconcile_at(&mut repo, &mut store, 1, b"x.txt", b"t", &[1], 10, a).unwrap();
    reconcile_at(&mut repo, &mut store, 2, b"y.txt", b"t", &[2], 20, b).unwrap();
    reconcile_at(&mut repo, &mut store, 1, b"z.txt", b"t", &[3], 30, c).unwrap();
    let mine = repo.records_of_owner(1);
    assert_eq!(mine.len(), 2);
    assert_eq!(mine[0].id, a);
    assert_eq!(mine[1].id, c);
    assert!(repo.records_of_owner(5).is_empty());
}

#[test]
fn dependency_error_carries_its_message() {
    let e = ContentError::Dependency("Error deleting file".to_string());
    assert_eq!(e.message(), "Error deleting file");
    assert_eq!(e.error_kind(), ErrorKind::Dependency);
}
