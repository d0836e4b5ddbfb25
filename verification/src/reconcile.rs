//! The upload reconciler.
//!
//! One reconciliation decides whether an upload creates a new content
//! record or replaces an existing one, removes the replaced object from
//! the object store before the new object is written, stores the new
//! object under a path unique per owner and upload instant, and writes
//! one consistent metadata record.  The old object is deleted before the
//! new one is written so that two live objects never exist for one
//! record; when a dependency call fails the database is left untouched.

use vstd::prelude::*;
use crate::byteseq::{base_of, dec_int, ext_of, push_all, split_extension, BYTE_DASH, BYTE_DOT};
use crate::digest::{content_digest, digest_hex};
use crate::error::{ContentError, ErrorKind};
use crate::ids::{fresh_record_id, RecordId};
use crate::literals::{lit_content_prefix, lit_content_prefix_vec, lit_sep_pct2f, lit_sep_pct2f_vec};
use crate::program::{Program, ProgramModel};
use crate::repo::{contains_rec_id, unique_match, ContentRepo};
use crate::store::{url_of, ObjectStore, StoreModel, StoredObjectModel};

verus! {

/// The name a payload is stored under: the base name, the record id, the
/// upload instant in milliseconds, and the original extension when there
/// is one, in the shape `base-id-millis.ext`.
pub open spec fn storage_filename(base: Seq<u8>, ext: Seq<u8>, id: RecordId, millis: int) -> Seq<
    u8,
> {
    let stem = base + seq![BYTE_DASH] + id.hex() + seq![BYTE_DASH] + dec_int(millis);
    if ext.len() == 0 {
        stem
    } else {
        stem + seq![BYTE_DOT] + ext
    }
}

/// The storage path of a content payload within its owner's area.
pub open spec fn content_path(owner: int, fname: Seq<u8>) -> Seq<u8> {
    lit_content_prefix() + dec_int(owner) + lit_sep_pct2f() + fname
}

/// Builds the storage filename.
pub fn build_storage_filename(base: &[u8], ext: &[u8], id: &RecordId, millis: i64) -> (r: Vec<u8>)
    ensures
        r@ == storage_filename(base@, ext@, *id, millis as int),
{
    let mut v = vstd::slice::slice_to_vec(base);
    v.push(BYTE_DASH);
    let mut hex = id.to_hex_bytes();
    v.append(&mut hex);
    v.push(BYTE_DASH);
    let mut ts = crate::byteseq::i64_to_dec(millis);
    v.append(&mut ts);
    if ext.len() > 0 {
        v.push(BYTE_DOT);
        push_all(&mut v, ext);
    }
    proof {
        assert(v@ =~= storage_filename(base@, ext@, *id, millis as int));
    }
    v
}

/// Builds the storage path of a content payload.
pub fn build_content_path(owner: i32, fname: &[u8]) -> (r: Vec<u8>)
    ensures
        r@ == content_path(owner as int, fname@),
{
    let mut v = lit_content_prefix_vec();
    let mut o = crate::byteseq::i32_to_dec(owner);
    v.append(&mut o);
    let sep = lit_sep_pct2f_vec();
    push_all(&mut v, sep.as_slice());
    push_all(&mut v, fname);
    proof {
        assert(v@ =~= content_path(owner as int, fname@));
    }
    v
}

/// The record one reconciliation persists.  When a record is replaced,
/// its id, creation instant and input/output types are kept; a new
/// record takes the fresh id and the upload instant as its creation
/// instant.
pub open spec fn reconciled_record(
    existing: Option<ProgramModel>,
    bucket: Seq<u8>,
    owner: int,
    filename: Seq<u8>,
    content_type: Seq<u8>,
    bytes: Seq<u8>,
    now: int,
    fresh: RecordId,
) -> ProgramModel {
    let id = match existing {
        Option::Some(e) => e.id,
        Option::None => fresh,
    };
    let fname = storage_filename(base_of(filename), ext_of(filename), id, now);
    let path = content_path(owner, fname);
    ProgramModel {
        id,
        owner_id: owner,
        filename: fname,
        code_url: url_of(bucket, path),
        content_type,
        file_size: bytes.len() as int,
        input_type: match existing {
            Option::Some(e) => e.input_type,
            Option::None => Seq::empty(),
        },
        output_type: match existing {
            Option::Some(e) => e.output_type,
            Option::None => Seq::empty(),
        },
        upload_time: match existing {
            Option::Some(e) => e.upload_time,
            Option::None => now,
        },
        update_time: now,
        file_path: path,
        file_hash: digest_hex(bytes),
    }
}

/// When a reconciliation runs to completion: the filename is present,
/// the store accepts the put, and — when a record is being replaced —
/// the store accepts the delete of the old object.
pub open spec fn reconcile_succeeds(
    repo: Seq<ProgramModel>,
    store: StoreModel,
    owner: int,
    filename: Seq<u8>,
) -> bool {
    filename.len() > 0 && !store.fail_put && !(unique_match(repo, owner, base_of(filename)) is Some
        && store.fail_delete)
}

/// Reconciles one upload at a given instant with a given fresh id.
///
/// An empty filename is rejected before anything is touched.  When a
/// record with the same owner and base name exists, its object is
/// deleted from the store first, then the new object is written and the
/// record is rewritten in place under its old id; otherwise the new
/// object is written and a new record is inserted under `fresh`.  A
/// failed store call aborts the operation with the database untouched.
pub fn reconcile_at(
    repo: &mut ContentRepo,
    store: &mut ObjectStore,
    owner_id: i32,
    filename: &[u8],
    content_type: &[u8],
    bytes: &[u8],
    now_millis: i64,
    fresh: RecordId,
) -> (r: Result<(Program, bool), ContentError>)
    requires
        old(repo).wf(),
        old(store).wf(),
        !contains_rec_id(old(repo)@, fresh),
        bytes@.len() <= i64::MAX,
    ensures
        final(repo).wf(),
        final(store).wf(),
        final(store)@.bucket == old(store)@.bucket,
        final(store)@.fail_put == old(store)@.fail_put,
        final(store)@.fail_delete == old(store)@.fail_delete,
        (r is Ok) == reconcile_succeeds(old(repo)@, old(store)@, owner_id as int, filename@),
        r is Err ==> final(repo)@ == old(repo)@,
        filename@.len() == 0 ==> (r matches Err(e) && e.kind() == ErrorKind::Validation && final(store)@ == old(store)@),
        (filename@.len() > 0 && unique_match(old(repo)@, owner_id as int, base_of(filename@))
            is Some && old(store)@.fail_delete) ==> (r matches Err(e) && e.kind()
            == ErrorKind::Dependency && final(store)@ == old(store)@),
        (filename@.len() > 0 && !(unique_match(old(repo)@, owner_id as int, base_of(filename@))
            is Some && old(store)@.fail_delete) && old(store)@.fail_put) ==> (r matches Err(e)
            && e.kind() == ErrorKind::Dependency && final(store)@.objects == (match unique_match(
            old(repo)@,
            owner_id as int,
            base_of(filename@),
        ) {
            Option::Some(i) => old(store)@.objects.remove(old(repo)@[i].file_path),
            Option::None => old(store)@.objects,
        })),
        reconcile_succeeds(old(repo)@, old(store)@, owner_id as int, filename@) ==> (r matches Ok(p)
            && ({
            let m = unique_match(old(repo)@, owner_id as int, base_of(filename@));
            let rec = reconciled_record(
                match m {
                    Option::Some(i) => Option::Some(old(repo)@[i]),
                    Option::None => Option::None,
                },
                old(store)@.bucket,
                owner_id as int,
                filename@,
                content_type@,
                bytes@,
                now_millis as int,
                fresh,
            );
            p.0@ == rec && p.1 == (m is None) && final(repo)@ == (match m {
                Option::Some(i) => old(repo)@.update(i, rec),
                Option::None => old(repo)@.push(rec),
            }) && final(store)@.objects == (match m {
                Option::Some(i) => old(store)@.objects.remove(old(repo)@[i].file_path),
                Option::None => old(store)@.objects,
            }).insert(
                rec.file_path,
                StoredObjectModel { bytes: bytes@, content_type: content_type@ },
            )
        })),
        r matches Ok(p) ==> (final(store)@.objects.dom().contains(p.0@.file_path) && final(store)@.objects[p.0@.file_path] == (StoredObjectModel {
            bytes: bytes@,
            content_type: content_type@,
        }) && p.0@.code_url == url_of(old(store)@.bucket, p.0@.file_path) && p.0@.file_size
            == bytes@.len() && p.0@.owner_id == owner_id as int && p.0@.file_hash == digest_hex(
            bytes@,
        ) && p.0@.update_time == now_millis as int),
{
    if filename.len() == 0 {
        return Err(ContentError::Validation("No filename provided".to_owned()));
    }
    let (base, ext) = split_extension(filename);
    let m = repo.find_unique_prefix_match(owner_id, base.as_slice());
    let id: RecordId;
    let upload_time: i64;
    let mut input_type: Vec<u8> = Vec::new();
    let mut output_type: Vec<u8> = Vec::new();
    match m {
        Some(i) => {
            let existing = repo.get(i);
            id = existing.id;
            upload_time = existing.upload_time;
            input_type = existing.input_type.clone();
            output_type = existing.output_type.clone();
            let old_path = existing.file_path.clone();
            match store.delete(old_path.as_slice()) {
                Ok(_) => {},
                Err(e) => {
                    return Err(e);
                },
            }
        },
        None => {
            id = fresh;
            upload_time = now_millis;
        },
    }
    let fname = build_storage_filename(base.as_slice(), ext.as_slice(), &id, now_millis);
    let path = build_content_path(owner_id, fname.as_slice());
    let url = match store.put(path.as_slice(), bytes, content_type) {
        Ok(u) => u,
        Err(e) => {
            return Err(e);
        },
    };
    let record = Program {
        id,
        owner_id,
        filename: fname,
        code_url: url,
        content_type: vstd::slice::slice_to_vec(content_type),
        file_size: bytes.len() as i64,
        input_type,
        output_type,
        upload_time,
        update_time: now_millis,
        file_path: path,
        file_hash: content_digest(bytes),
    };
    match m {
        Some(i) => {
            let stored = record.clone();
            repo.update_at(i, stored);
            Ok((record, false))
        },
        None => {
            let stored = record.clone();
            repo.insert(stored);
            Ok((record, true))
        },
    }
}

/// The content type an upload is stored with: the declared one, or the
/// generic binary type when none was declared.
pub fn resolve_content_type(declared: Option<Vec<u8>>) -> (r: Vec<u8>)
    ensures
        match declared {
            Option::Some(c) => r@ == c@,
            Option::None => r@ == crate::literals::lit_octet_stream(),
        },
{
    match declared {
        Some(c) => c,
        None => crate::literals::lit_octet_stream_vec(),
    }
}

proof fn lemma_storage_filename_millis(
    b1: Seq<u8>,
    e1: Seq<u8>,
    id1: RecordId,
    t1: int,
    b2: Seq<u8>,
    e2: Seq<u8>,
    id2: RecordId,
    t2: int,
)
    requires
        b1.len() == b2.len(),
        t1 >= 0,
        t2 >= 0,
        storage_filename(b1, e1, id1, t1) == storage_filename(b2, e2, id2, t2),
    ensures
        t1 == t2,
{
    let f1 = storage_filename(b1, e1, id1, t1);
    let f2 = storage_filename(b2, e2, id2, t2);
    let d1 = crate::byteseq::dec_nat(t1 as nat);
    let d2 = crate::byteseq::dec_nat(t2 as nat);
    let k: int = b1.len() as int + 26;
    crate::byteseq::lemma_hex_k_len(id1.hi as nat, 12);
    crate::byteseq::lemma_hex_k_len(id1.lo as nat, 12);
    crate::byteseq::lemma_hex_k_len(id2.hi as nat, 12);
    crate::byteseq::lemma_hex_k_len(id2.lo as nat, 12);
    crate::byteseq::lemma_dec_nat_digits(t1 as nat);
    crate::byteseq::lemma_dec_nat_digits(t2 as nat);
    let stem1 = b1 + seq![BYTE_DASH] + id1.hex() + seq![BYTE_DASH] + d1;
    let stem2 = b2 + seq![BYTE_DASH] + id2.hex() + seq![BYTE_DASH] + d2;
    assert(id1.hex().len() == 24);
    assert(id2.hex().len() == 24);
    assert(stem1.len() == k + d1.len());
    assert(stem2.len() == k + d2.len());
    assert forall|j: int| 0 <= j < d1.len() implies f1[k + j] == d1[j] by {
        assert(stem1[k + j] == d1[j]);
        if e1.len() > 0 {
            assert(f1[k + j] == (stem1 + seq![BYTE_DOT] + e1)[k + j]);
            assert((stem1 + seq![BYTE_DOT] + e1)[k + j] == stem1[k + j]);
        }
    }
    assert forall|j: int| 0 <= j < d2.len() implies f2[k + j] == d2[j] by {
        assert(stem2[k + j] == d2[j]);
        if e2.len() > 0 {
            assert(f2[k + j] == (stem2 + seq![BYTE_DOT] + e2)[k + j]);
            assert((stem2 + seq![BYTE_DOT] + e2)[k + j] == stem2[k + j]);
        }
    }
    if d1.len() < d2.len() {
        let pos: int = k + d1.len() as int;
        assert(crate::byteseq::is_dec_digit(d2[d1.len() as int]));
        assert(f2[pos] == d2[d1.len() as int]);
        if e1.len() == 0 {
            assert(f1.len() == k + d1.len());
            assert(f2.len() >= k + d2.len());
            assert(false);
        } else {
            assert(f1[pos] == (stem1 + seq![BYTE_DOT] + e1)[pos]);
            assert((stem1 + seq![BYTE_DOT] + e1)[pos] == BYTE_DOT);
            assert(false);
        }
    }
    if d2.len() < d1.len() {
        let pos: int = k + d2.len() as int;
        assert(crate::byteseq::is_dec_digit(d1[d2.len() as int]));
        assert(f1[pos] == d1[d2.len() as int]);
        if e2.len() == 0 {
            assert(f2.len() == k + d2.len());
            assert(f1.len() >= k + d1.len());
            assert(false);
        } else {
            assert(f2[pos] == (stem2 + seq![BYTE_DOT] + e2)[pos]);
            assert((stem2 + seq![BYTE_DOT] + e2)[pos] == BYTE_DOT);
            assert(false);
        }
    }
    assert(d1.len() == d2.len());
    assert forall|j: int| 0 <= j < d1.len() implies d1[j] == d2[j] by {
        assert(f1[k + j] == d1[j]);
        assert(f2[k + j] == d2[j]);
    }
    assert(d1 =~= d2);
    crate::byteseq::lemma_dec_nat_injective(t1 as nat, t2 as nat);
}

/// Uploading twice with the same owner and the same base name — compared
/// ignoring ASCII case — updates the one record the first upload
/// created, under its original id, and the object the first upload
/// stored is no longer retrievable once the second completes.  The two
/// uploads must happen at distinct instants; re-uploads within the same
/// millisecond may reuse the storage path.
pub proof fn lemma_reupload_replaces_record(
    repo0: Seq<ProgramModel>,
    store0: StoreModel,
    owner: int,
    filename1: Seq<u8>,
    ct1: Seq<u8>,
    bytes1: Seq<u8>,
    now1: int,
    fresh1: RecordId,
    filename2: Seq<u8>,
    ct2: Seq<u8>,
    bytes2: Seq<u8>,
    now2: int,
    fresh2: RecordId,
)
    requires
        filename1.len() > 0,
        filename2.len() > 0,
        crate::repo::match_count(repo0, owner, base_of(filename1)) == 0,
        base_of(filename2).len() == base_of(filename1).len(),
        forall|i: int|
            0 <= i < base_of(filename1).len() ==> crate::byteseq::lower_byte(
                #[trigger] base_of(filename2)[i],
            ) == crate::byteseq::lower_byte(base_of(filename1)[i]),
        now1 >= 0,
        now2 >= 0,
        now1 != now2,
        !store0.fail_put,
        !store0.fail_delete,
    ensures
        reconcile_succeeds(repo0, store0, owner, filename1),
        unique_match(repo0, owner, base_of(filename1)) is None,
        ({
            let rec1 = reconciled_record(
                Option::None,
                store0.bucket,
                owner,
                filename1,
                ct1,
                bytes1,
                now1,
                fresh1,
            );
            let repo1 = repo0.push(rec1);
            let objects1 = store0.objects.insert(
                rec1.file_path,
                StoredObjectModel { bytes: bytes1, content_type: ct1 },
            );
            let store1 = StoreModel { objects: objects1, ..store0 };
            let rec2 = reconciled_record(
                Option::Some(rec1),
                store0.bucket,
                owner,
                filename2,
                ct2,
                bytes2,
                now2,
                fresh2,
            );
            &&& reconcile_succeeds(repo1, store1, owner, filename2)
            &&& unique_match(repo1, owner, base_of(filename2)) == Option::Some(repo0.len() as int)
            &&& rec2.id == rec1.id
            &&& rec2.upload_time == rec1.upload_time
            &&& rec2.file_path != rec1.file_path
            &&& !objects1.remove(rec1.file_path).insert(
                rec2.file_path,
                StoredObjectModel { bytes: bytes2, content_type: ct2 },
            ).dom().contains(rec1.file_path)
        }),
{
    let b1 = base_of(filename1);
    let b2 = base_of(filename2);
    let rec1 = reconciled_record(
        Option::None,
        store0.bucket,
        owner,
        filename1,
        ct1,
        bytes1,
        now1,
        fresh1,
    );
    let repo1 = repo0.push(rec1);
    let rec2 = reconciled_record(
        Option::Some(rec1),
        store0.bucket,
        owner,
        filename2,
        ct2,
        bytes2,
        now2,
        fresh2,
    );
    // the new record matches either base name
    assert(rec1.filename == storage_filename(b1, ext_of(filename1), fresh1, now1));
    crate::byteseq::lemma_hex_k_len(fresh1.hi as nat, 12);
    crate::byteseq::lemma_hex_k_len(fresh1.lo as nat, 12);
    let stem1 = b1 + seq![BYTE_DASH] + fresh1.hex() + seq![BYTE_DASH] + crate::byteseq::dec_nat(
        now1 as nat,
    );
    assert forall|i: int| 0 <= i < b1.len() implies rec1.filename[i] == b1[i] by {
        assert(stem1[i] == b1[i]);
        if ext_of(filename1).len() > 0 {
            assert(rec1.filename[i] == (stem1 + seq![BYTE_DOT] + ext_of(filename1))[i]);
            assert((stem1 + seq![BYTE_DOT] + ext_of(filename1))[i] == stem1[i]);
        }
    }
    assert(rec1.filename.len() >= b1.len());
    assert(crate::byteseq::is_ci_prefix(b1, rec1.filename));
    assert(crate::byteseq::is_ci_prefix(b2, rec1.filename));
    assert(crate::repo::is_match(rec1, owner, b2));
    // exactly one record of the grown repository answers the query
    crate::repo::lemma_match_count_ci_equal(repo0, owner, b1, b2);
    assert(repo1.drop_last() =~= repo0);
    assert(crate::repo::match_count(repo1, owner, b2) == 1);
    let k = crate::repo::match_index(repo1, owner, b2);
    assert(crate::repo::is_match(repo1[repo0.len() as int], owner, b2));
    assert(crate::repo::is_match(repo1[k], owner, b2));
    if k != repo0.len() as int {
        assert(repo1[k] == repo0[k]);
        crate::repo::lemma_match_count_at(repo0, owner, b2, k);
        assert(false);
    }
    assert(unique_match(repo1, owner, b2) == Option::Some(repo0.len() as int));
    // the same holds of the first upload's query
    assert(unique_match(repo0, owner, b1) is None);
    // distinct instants give distinct storage paths
    assert(rec2.id == fresh1);
    if rec2.file_path == rec1.file_path {
        let fname1 = storage_filename(b1, ext_of(filename1), fresh1, now1);
        let fname2 = storage_filename(b2, ext_of(filename2), fresh1, now2);
        let prefix = lit_content_prefix() + dec_int(owner) + lit_sep_pct2f();
        assert(rec1.file_path == prefix + fname1);
        assert(rec2.file_path == prefix + fname2);
        assert(fname1.len() == fname2.len());
        assert forall|j: int| 0 <= j < fname1.len() implies fname1[j] == fname2[j] by {
            assert((prefix + fname1)[prefix.len() + j] == fname1[j]);
            assert((prefix + fname2)[prefix.len() + j] == fname2[j]);
        }
        assert(fname1 =~= fname2);
        lemma_storage_filename_millis(
            b1,
            ext_of(filename1),
            fresh1,
            now1,
            b2,
            ext_of(filename2),
            fresh1,
            now2,
        );
        assert(false);
    }
}

/// Relies on `chrono::Utc::now` for the current wall-clock instant in
/// milliseconds since the epoch; nothing is assumed about its value.
#[verifier::external_body]
fn current_millis() -> i64 {
    chrono::Utc::now().timestamp_millis()
}

/// Reconciles one upload now, under a freshly generated id.
///
/// The id generator and the clock decide the new record's id and
/// instant, so this states what holds whatever they produced; the exact
/// outcome for a chosen id and instant is the contract of
/// `reconcile_at`.  In the unlikely event that the generated id is
/// already taken, the operation fails as a dependency error with nothing
/// committed.
pub fn reconcile(
    repo: &mut ContentRepo,
    store: &mut ObjectStore,
    owner_id: i32,
    filename: &[u8],
    content_type: &[u8],
    bytes: &[u8],
) -> (r: Result<(Program, bool), ContentError>)
    requires
        old(repo).wf(),
        old(store).wf(),
        bytes@.len() <= i64::MAX,
    ensures
        final(repo).wf(),
        final(store).wf(),
        final(store)@.bucket == old(store)@.bucket,
        final(store)@.fail_put == old(store)@.fail_put,
        final(store)@.fail_delete == old(store)@.fail_delete,
        r is Err ==> final(repo)@ == old(repo)@,
        filename@.len() == 0 ==> (r matches Err(e) && e.kind() == ErrorKind::Validation && final(store)@ == old(store)@),
        r matches Ok(p) ==> (final(store)@.objects.dom().contains(p.0@.file_path) && final(store)@.objects[p.0@.file_path] == (StoredObjectModel {
            bytes: bytes@,
            content_type: content_type@,
        }) && p.0@.code_url == url_of(old(store)@.bucket, p.0@.file_path) && p.0@.file_size
            == bytes@.len() && p.0@.owner_id == owner_id as int && p.0@.file_hash == digest_hex(
            bytes@,
        )),
{
    if filename.len() == 0 {
        return Err(ContentError::Validation("No filename provided".to_owned()));
    }
    let fresh = fresh_record_id();
    let now = current_millis();
    if repo.contains_id(fresh) {
        return Err(ContentError::Dependency("Insert error".to_owned()));
    }
    reconcile_at(repo, store, owner_id, filename, content_type, bytes, now, fresh)
}

} // verus!
