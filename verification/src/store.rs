//! The object store.
//!
//! Binary payloads live in an external object store, addressed by an
//! opaque path and served through a public access URL derived from the
//! bucket and the path.  This module models that store as a mapping from
//! paths to stored objects.  Put and delete can be switched to fail, the
//! way a remote call may, so that callers' behaviour under dependency
//! failure is part of their contracts.  Delete is idempotent: deleting an
//! absent path succeeds and changes nothing.

use vstd::prelude::*;
use crate::byteseq::{bytes_eq, push_all};
use crate::error::ContentError;
use crate::literals::{
    lit_url_head, lit_url_head_vec, lit_url_mid, lit_url_mid_vec, lit_url_tail, lit_url_tail_vec,
};

verus! {

/// Mathematical model of one stored object.
pub ghost struct StoredObjectModel {
    pub bytes: Seq<u8>,
    pub content_type: Seq<u8>,
}

/// One object held by the store.
#[derive(Debug)]
pub struct StoredObject {
    pub path: Vec<u8>,
    pub bytes: Vec<u8>,
    pub content_type: Vec<u8>,
}

impl View for StoredObject {
    type V = StoredObjectModel;

    open spec fn view(&self) -> StoredObjectModel {
        StoredObjectModel { bytes: self.bytes@, content_type: self.content_type@ }
    }
}

/// Mathematical model of the whole store.
pub ghost struct StoreModel {
    pub bucket: Seq<u8>,
    pub objects: Map<Seq<u8>, StoredObjectModel>,
    pub fail_put: bool,
    pub fail_delete: bool,
}

/// The object store, keyed by path.
#[derive(Debug)]
pub struct ObjectStore {
    pub bucket: Vec<u8>,
    pub objects: Vec<StoredObject>,
    pub fail_put: bool,
    pub fail_delete: bool,
}

/// The mapping from paths to objects that an object sequence holds; a
/// later entry for the same path wins.
pub open spec fn objects_map(s: Seq<StoredObject>) -> Map<Seq<u8>, StoredObjectModel>
    decreases s.len(),
{
    if s.len() == 0 {
        Map::empty()
    } else {
        objects_map(s.drop_last()).insert(s.last().path@, s.last()@)
    }
}

/// No two entries share a path.
pub open spec fn paths_unique(s: Seq<StoredObject>) -> bool {
    forall|i: int, j: int| 0 <= i < j < s.len() ==> s[i].path@ != s[j].path@
}

/// The public access URL of a path within a bucket.
pub open spec fn url_of(bucket: Seq<u8>, path: Seq<u8>) -> Seq<u8> {
    lit_url_head() + bucket + lit_url_mid() + path + lit_url_tail()
}

/// Builds the public access URL of a path within a bucket.
pub fn build_access_url(bucket: &[u8], path: &[u8]) -> (r: Vec<u8>)
    ensures
        r@ == url_of(bucket@, path@),
{
    let mut v = lit_url_head_vec();
    push_all(&mut v, bucket);
    let mid = lit_url_mid_vec();
    push_all(&mut v, mid.as_slice());
    push_all(&mut v, path);
    let tail = lit_url_tail_vec();
    push_all(&mut v, tail.as_slice());
    proof {
        assert(v@ =~= url_of(bucket@, path@));
    }
    v
}

proof fn lemma_objects_map_dom(s: Seq<StoredObject>, p: Seq<u8>)
    ensures
        objects_map(s).dom().contains(p) <==> exists|i: int| 0 <= i < s.len() && s[i].path@ == p,
    decreases s.len(),
{
    if s.len() > 0 {
        lemma_objects_map_dom(s.drop_last(), p);
        if s.last().path@ == p {
            assert(s[s.len() - 1].path@ == p);
        } else {
            if objects_map(s).dom().contains(p) {
                let i = choose|i: int| 0 <= i < s.drop_last().len() && s.drop_last()[i].path@ == p;
                assert(s[i].path@ == p);
            }
            if exists|i: int| 0 <= i < s.len() && s[i].path@ == p {
                let i = choose|i: int| 0 <= i < s.len() && s[i].path@ == p;
                assert(i < s.len() - 1);
                assert(s.drop_last()[i].path@ == p);
            }
        }
    }
}

proof fn lemma_drop_last_unique(s: Seq<StoredObject>)
    requires
        paths_unique(s),
        s.len() > 0,
    ensures
        paths_unique(s.drop_last()),
{
    assert forall|i: int, j: int| 0 <= i < j < s.drop_last().len() implies s.drop_last()[i].path@
        != s.drop_last()[j].path@ by {
        assert(s[i].path@ != s[j].path@);
    }
}

proof fn lemma_objects_map_at(s: Seq<StoredObject>, i: int)
    requires
        paths_unique(s),
        0 <= i < s.len(),
    ensures
        objects_map(s).dom().contains(s[i].path@),
        objects_map(s)[s[i].path@] == s[i]@,
    decreases s.len(),
{
    if i < s.len() - 1 {
        lemma_drop_last_unique(s);
        lemma_objects_map_at(s.drop_last(), i);
        assert(s.drop_last()[i] == s[i]);
        assert(s[i].path@ != s.last().path@);
    }
}

proof fn lemma_remove_unique(s: Seq<StoredObject>, i: int)
    requires
        paths_unique(s),
        0 <= i < s.len(),
    ensures
        paths_unique(s.remove(i)),
{
    assert forall|a: int, b: int| 0 <= a < b < s.remove(i).len() implies s.remove(i)[a].path@
        != s.remove(i)[b].path@ by {
        let a0 = if a < i { a } else { a + 1 };
        let b0 = if b < i { b } else { b + 1 };
        assert(s.remove(i)[a] == s[a0]);
        assert(s.remove(i)[b] == s[b0]);
        assert(s[a0].path@ != s[b0].path@);
    }
}

proof fn lemma_objects_map_remove(s: Seq<StoredObject>, i: int)
    requires
        paths_unique(s),
        0 <= i < s.len(),
    ensures
        objects_map(s.remove(i)) == objects_map(s).remove(s[i].path@),
    decreases s.len(),
{
    let p = s[i].path@;
    if i == s.len() - 1 {
        assert(s.remove(i) =~= s.drop_last());
        lemma_objects_map_dom(s.drop_last(), p);
        assert forall|j: int| 0 <= j < s.drop_last().len() implies s.drop_last()[j].path@ != p by {
            assert(s[j].path@ != p);
        }
        assert(!objects_map(s.drop_last()).dom().contains(p));
        assert(objects_map(s).remove(p) =~= objects_map(s.drop_last()));
    } else {
        assert(s.remove(i).drop_last() =~= s.drop_last().remove(i));
        assert(s.remove(i).last() == s.last());
        lemma_drop_last_unique(s);
        lemma_objects_map_remove(s.drop_last(), i);
        assert(s.drop_last()[i] == s[i]);
        assert(p != s.last().path@);
        assert(objects_map(s.remove(i)) == objects_map(s.drop_last()).remove(p).insert(
            s.last().path@,
            s.last()@,
        ));
        assert(objects_map(s.drop_last()).remove(p).insert(s.last().path@, s.last()@)
            =~= objects_map(s.drop_last()).insert(s.last().path@, s.last()@).remove(p));
    }
}

impl View for ObjectStore {
    type V = StoreModel;

    open spec fn view(&self) -> StoreModel {
        StoreModel {
            bucket: self.bucket@,
            objects: objects_map(self.objects@),
            fail_put: self.fail_put,
            fail_delete: self.fail_delete,
        }
    }
}

impl ObjectStore {
    /// No two held objects share a path.
    pub open spec fn wf(&self) -> bool {
        paths_unique(self.objects@)
    }

    /// An empty store over the given bucket, with both failure switches
    /// off.
    pub fn new(bucket: Vec<u8>) -> (r: ObjectStore)
        ensures
            r.wf(),
            r@.bucket == bucket@,
            r@.objects == Map::<Seq<u8>, StoredObjectModel>::empty(),
            !r@.fail_put,
            !r@.fail_delete,
    {
        ObjectStore { bucket, objects: Vec::new(), fail_put: false, fail_delete: false }
    }

    /// Switches the next puts to fail or succeed.
    pub fn set_fail_put(&mut self, fail: bool)
        ensures
            final(self)@ == (StoreModel { fail_put: fail, ..old(self)@ }),
            final(self).wf() == old(self).wf(),
    {
        self.fail_put = fail;
    }

    /// Switches the next deletes to fail or succeed.
    pub fn set_fail_delete(&mut self, fail: bool)
        ensures
            final(self)@ == (StoreModel { fail_delete: fail, ..old(self)@ }),
            final(self).wf() == old(self).wf(),
    {
        self.fail_delete = fail;
    }

    fn find_path_index(&self, path: &[u8]) -> (r: Option<usize>)
        ensures
            match r {
                Some(i) => i < self.objects@.len() && self.objects@[i as int].path@ == path@,
                None => forall|i: int|
                    0 <= i < self.objects@.len() ==> self.objects@[i].path@ != path@,
            },
    {
        let mut i: usize = 0;
        while i < self.objects.len()
            invariant
                i <= self.objects@.len(),
                forall|j: int| 0 <= j < i ==> self.objects@[j].path@ != path@,
            decreases self.objects@.len() - i,
        {
            if bytes_eq(self.objects[i].path.as_slice(), path) {
                return Some(i);
            }
            i += 1;
        }
        None
    }

    /// Is an object present at `path`?
    pub fn contains_object(&self, path: &[u8]) -> (r: bool)
        requires
            self.wf(),
        ensures
            r == self@.objects.dom().contains(path@),
    {
        proof {
            lemma_objects_map_dom(self.objects@, path@);
        }
        match self.find_path_index(path) {
            Some(_) => true,
            None => false,
        }
    }

    /// The object at `path`, if one is present.
    pub fn get_object(&self, path: &[u8]) -> (r: Option<&StoredObject>)
        requires
            self.wf(),
        ensures
            match r {
                Some(o) => self@.objects.dom().contains(path@) && o@ == self@.objects[path@]
                    && o.path@ == path@,
                None => !self@.objects.dom().contains(path@),
            },
    {
        proof {
            lemma_objects_map_dom(self.objects@, path@);
        }
        match self.find_path_index(path) {
            Some(i) => {
                proof {
                    lemma_objects_map_at(self.objects@, i as int);
                }
                Some(&self.objects[i])
            },
            None => None,
        }
    }

    /// Stores `bytes` under `path`, replacing any object already there,
    /// and returns the public access URL — unless the store is failing
    /// puts, in which case nothing changes.
    pub fn put(&mut self, path: &[u8], bytes: &[u8], content_type: &[u8]) -> (r: Result<
        Vec<u8>,
        ContentError,
    >)
        requires
            old(self).wf(),
        ensures
            final(self).wf(),
            old(self)@.fail_put ==> (r matches Err(e) && e.kind()
                == crate::error::ErrorKind::Dependency && final(self)@ == old(self)@),
            !old(self)@.fail_put ==> match r {
                Ok(url) => url@ == url_of(old(self)@.bucket, path@) && final(self)@ == (StoreModel {
                    objects: old(self)@.objects.insert(
                        path@,
                        StoredObjectModel { bytes: bytes@, content_type: content_type@ },
                    ),
                    ..old(self)@
                }),
                Err(_) => false,
            },
    {
        if self.fail_put {
            return Err(ContentError::Dependency("Error uploading to Firebase".to_owned()));
        }
        let o = StoredObject {
            path: vstd::slice::slice_to_vec(path),
            bytes: vstd::slice::slice_to_vec(bytes),
            content_type: vstd::slice::slice_to_vec(content_type),
        };
        match self.find_path_index(path) {
            Some(i) => {
                proof {
                    lemma_objects_map_remove(self.objects@, i as int);
                    lemma_remove_unique(self.objects@, i as int);
                }
                self.objects.remove(i);
                let ghost removed = self.objects@;
                self.objects.push(o);
                proof {
                    assert(self.objects@.drop_last() =~= removed);
                    assert forall|a: int, b: int|
                        0 <= a < b < self.objects@.len() implies self.objects@[a].path@
                        != self.objects@[b].path@ by {
                        if b == self.objects@.len() - 1 {
                            lemma_objects_map_dom(removed, path@);
                        }
                    }
                    assert(old(self)@.objects.remove(path@).insert(
                        path@,
                        StoredObjectModel { bytes: bytes@, content_type: content_type@ },
                    ) =~= old(self)@.objects.insert(
                        path@,
                        StoredObjectModel { bytes: bytes@, content_type: content_type@ },
                    ));
                }
            },
            None => {
                let ghost before = self.objects@;
                self.objects.push(o);
                proof {
                    assert(self.objects@.drop_last() =~= before);
                    assert forall|a: int, b: int|
                        0 <= a < b < self.objects@.len() implies self.objects@[a].path@
                        != self.objects@[b].path@ by {}
                }
            },
        }
        Ok(build_access_url(self.bucket.as_slice(), path))
    }

    /// Removes the object at `path` if one is there — unless the store is
    /// failing deletes, in which case nothing changes and an error comes
    /// back.
    pub fn delete(&mut self, path: &[u8]) -> (r: Result<(), ContentError>)
        requires
            old(self).wf(),
        ensures
            final(self).wf(),
            old(self)@.fail_delete ==> (r matches Err(e) && e.kind()
                == crate::error::ErrorKind::Dependency && final(self)@ == old(self)@),
            !old(self)@.fail_delete ==> (r matches Ok(u) && u == () && final(self)@ == (StoreModel {
                objects: old(self)@.objects.remove(path@),
                ..old(self)@
            })),
    {
        if self.fail_delete {
            return Err(ContentError::Dependency("Error deleting file".to_owned()));
        }
        match self.find_path_index(path) {
            Some(i) => {
                proof {
                    lemma_objects_map_remove(self.objects@, i as int);
                    lemma_remove_unique(self.objects@, i as int);
                }
                self.objects.remove(i);
            },
            None => {
                proof {
                    lemma_objects_map_dom(self.objects@, path@);
                    assert(old(self)@.objects.remove(path@) =~= old(self)@.objects);
                }
            },
        }
        Ok(())
    }

    /// How many objects the store holds.
    pub fn object_count(&self) -> (r: usize)
        ensures
            r == self.objects@.len(),
    {
        self.objects.len()
    }
}

} // verus!
