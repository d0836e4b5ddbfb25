//! The content repository.
//!
//! Content records are kept in a document collection queried by id and by
//! owner together with a case-insensitive filename prefix.  The prefix
//! query expects at most one match: when several records match — a data
//! anomaly — it deterministically reports no match at all.

use vstd::prelude::*;
use crate::byteseq::{is_ci_prefix, starts_with_ci};
use crate::ids::RecordId;
use crate::program::{Program, ProgramModel};

verus! {

/// Some record in `s` carries `id`.
pub open spec fn contains_rec_id(s: Seq<ProgramModel>, id: RecordId) -> bool {
    exists|i: int| 0 <= i < s.len() && s[i].id == id
}

/// The index of the record carrying `id`.
pub open spec fn rec_id_index(s: Seq<ProgramModel>, id: RecordId) -> int {
    choose|i: int| 0 <= i < s.len() && s[i].id == id
}

/// No two records share an id.
pub open spec fn ids_unique(s: Seq<ProgramModel>) -> bool {
    forall|i: int, j: int| 0 <= i < j < s.len() ==> s[i].id != s[j].id
}

/// Does `r` answer the owner/base-name query?
pub open spec fn is_match(r: ProgramModel, owner: int, base: Seq<u8>) -> bool {
    r.owner_id == owner && is_ci_prefix(base, r.filename)
}

/// How many records answer the owner/base-name query.
pub open spec fn match_count(s: Seq<ProgramModel>, owner: int, base: Seq<u8>) -> nat
    decreases s.len(),
{
    if s.len() == 0 {
        0
    } else {
        match_count(s.drop_last(), owner, base) + (if is_match(s.last(), owner, base) {
            1nat
        } else {
            0nat
        })
    }
}

/// The index of a record answering the owner/base-name query.
pub open spec fn match_index(s: Seq<ProgramModel>, owner: int, base: Seq<u8>) -> int {
    choose|i: int| 0 <= i < s.len() && is_match(s[i], owner, base)
}

/// The record the prefix query answers with: the single match when there
/// is exactly one, and nothing otherwise.
pub open spec fn unique_match(s: Seq<ProgramModel>, owner: int, base: Seq<u8>) -> Option<int> {
    if match_count(s, owner, base) == 1 {
        Option::Some(match_index(s, owner, base))
    } else {
        Option::None
    }
}

pub proof fn lemma_match_count_at(s: Seq<ProgramModel>, owner: int, base: Seq<u8>, i: int)
    requires
        0 <= i < s.len(),
        is_match(s[i], owner, base),
    ensures
        match_count(s, owner, base) >= 1,
    decreases s.len(),
{
    if i < s.len() - 1 {
        assert(s.drop_last()[i] == s[i]);
        lemma_match_count_at(s.drop_last(), owner, base, i);
    }
}

pub proof fn lemma_match_count_two(s: Seq<ProgramModel>, owner: int, base: Seq<u8>, i: int, j: int)
    requires
        0 <= i < j < s.len(),
        is_match(s[i], owner, base),
        is_match(s[j], owner, base),
    ensures
        match_count(s, owner, base) >= 2,
    decreases s.len(),
{
    if j == s.len() - 1 {
        assert(s.drop_last()[i] == s[i]);
        lemma_match_count_at(s.drop_last(), owner, base, i);
    } else {
        assert(s.drop_last()[i] == s[i]);
        assert(s.drop_last()[j] == s[j]);
        lemma_match_count_two(s.drop_last(), owner, base, i, j);
    }
}

/// Two base names that are equal up to ASCII case answer the query
/// identically: every record matches one exactly when it matches the
/// other, so the match counts agree.
pub proof fn lemma_match_count_ci_equal(s: Seq<ProgramModel>, owner: int, b1: Seq<u8>, b2: Seq<u8>)
    requires
        b1.len() == b2.len(),
        forall|i: int| 0 <= i < b1.len() ==> crate::byteseq::lower_byte(b2[i])
            == crate::byteseq::lower_byte(b1[i]),
    ensures
        match_count(s, owner, b1) == match_count(s, owner, b2),
    decreases s.len(),
{
    if s.len() > 0 {
        lemma_match_count_ci_equal(s.drop_last(), owner, b1, b2);
        assert(is_ci_prefix(b1, s.last().filename) == is_ci_prefix(b2, s.last().filename));
    }
}

/// The records belonging to `owner`, in repository order.
pub open spec fn owner_records(s: Seq<ProgramModel>, owner: int) -> Seq<ProgramModel>
    decreases s.len(),
{
    if s.len() == 0 {
        Seq::empty()
    } else if s.last().owner_id == owner {
        owner_records(s.drop_last(), owner).push(s.last())
    } else {
        owner_records(s.drop_last(), owner)
    }
}

/// The collection of content records.
#[derive(Debug)]
pub struct ContentRepo {
    pub records: Vec<Program>,
}

impl View for ContentRepo {
    type V = Seq<ProgramModel>;

    open spec fn view(&self) -> Seq<ProgramModel> {
        self.records@.map_values(|p: Program| p@)
    }
}

impl ContentRepo {
    /// No two records share an id.
    pub open spec fn wf(&self) -> bool {
        ids_unique(self@)
    }

    /// An empty repository.
    pub fn new() -> (r: ContentRepo)
        ensures
            r@ == Seq::<ProgramModel>::empty(),
            r.wf(),
    {
        let r = ContentRepo { records: Vec::new() };
        proof {
            assert(r@ =~= Seq::<ProgramModel>::empty());
        }
        r
    }

    /// How many records the repository holds.
    pub fn record_count(&self) -> (r: usize)
        ensures
            r == self@.len(),
    {
        self.records.len()
    }

    /// The record at a position.
    pub fn get(&self, i: usize) -> (r: &Program)
        requires
            i < self@.len(),
        ensures
            r@ == self@[i as int],
    {
        &self.records[i]
    }

    fn index_of_id(&self, id: RecordId) -> (r: Option<usize>)
        requires
            self.wf(),
        ensures
            match r {
                Some(i) => contains_rec_id(self@, id) && i < self@.len() && self@[i as int].id == id
                    && rec_id_index(self@, id) == i as int,
                None => !contains_rec_id(self@, id),
            },
    {
        let mut i: usize = 0;
        while i < self.records.len()
            invariant
                i <= self@.len() == self.records@.len(),
                self.wf(),
                forall|j: int| 0 <= j < i ==> self@[j].id != id,
            decreases self@.len() - i,
        {
            proof {
                assert(self@[i as int] == self.records@[i as int]@);
            }
            if self.records[i].id.hi == id.hi && self.records[i].id.lo == id.lo {
                proof {
                    assert(self@[i as int].id == id);
                    let k = rec_id_index(self@, id);
                    assert(self@[k].id == id);
                    assert(k == i as int);
                }
                return Some(i);
            }
            i += 1;
        }
        None
    }

    /// Does a record with `id` exist?
    pub fn contains_id(&self, id: RecordId) -> (r: bool)
        requires
            self.wf(),
        ensures
            r == contains_rec_id(self@, id),
    {
        match self.index_of_id(id) {
            Some(_) => true,
            None => false,
        }
    }

    /// The record carrying `id`, if any.
    pub fn find_by_id(&self, id: RecordId) -> (r: Option<&Program>)
        requires
            self.wf(),
        ensures
            match r {
                Some(p) => contains_rec_id(self@, id) && p@ == self@[rec_id_index(self@, id)]
                    && p@.id == id,
                None => !contains_rec_id(self@, id),
            },
    {
        match self.index_of_id(id) {
            Some(i) => Some(&self.records[i]),
            None => None,
        }
    }

    /// Adds a record under a fresh id.
    pub fn insert(&mut self, p: Program)
        requires
            old(self).wf(),
            !contains_rec_id(old(self)@, p@.id),
        ensures
            final(self)@ == old(self)@.push(p@),
            final(self).wf(),
    {
        self.records.push(p);
        proof {
            assert(self@ =~= old(self)@.push(self.records@.last()@));
            assert forall|i: int, j: int| 0 <= i < j < self@.len() implies self@[i].id
                != self@[j].id by {
                if j == self@.len() - 1 {
                    assert(!(self@[i].id == self@[j].id));
                }
            }
        }
    }

    /// Replaces the record at a position, keeping its id.
    pub fn update_at(&mut self, i: usize, p: Program)
        requires
            old(self).wf(),
            i < old(self)@.len(),
            p@.id == old(self)@[i as int].id,
        ensures
            final(self)@ == old(self)@.update(i as int, p@),
            final(self).wf(),
    {
        self.records.remove(i);
        self.records.insert(i, p);
        proof {
            assert(self@ =~= old(self)@.update(i as int, p@));
            assert forall|a: int, b: int| 0 <= a < b < self@.len() implies self@[a].id
                != self@[b].id by {
                assert(old(self)@[a].id != old(self)@[b].id);
            }
        }
    }

    /// Removes the record carrying `id`; reports how many were removed.
    pub fn delete_by_id(&mut self, id: RecordId) -> (count: usize)
        requires
            old(self).wf(),
        ensures
            final(self).wf(),
            contains_rec_id(old(self)@, id) ==> count == 1 && final(self)@ == old(self)@.remove(
                rec_id_index(old(self)@, id),
            ),
            !contains_rec_id(old(self)@, id) ==> count == 0 && final(self)@ == old(self)@,
    {
        match self.index_of_id(id) {
            Some(i) => {
                self.records.remove(i);
                proof {
                    assert(self@ =~= old(self)@.remove(i as int));
                    assert forall|a: int, b: int| 0 <= a < b < self@.len() implies self@[a].id
                        != self@[b].id by {
                        let a0 = if a < i as int { a } else { a + 1 };
                        let b0 = if b < i as int { b } else { b + 1 };
                        assert(self@[a] == old(self)@[a0]);
                        assert(self@[b] == old(self)@[b0]);
                        assert(old(self)@[a0].id != old(self)@[b0].id);
                    }
                }
                1
            },
            None => 0,
        }
    }

    /// Applies a sparse update to the record carrying `id` and stamps its
    /// last-updated instant; reports how many records matched.
    pub fn patch_by_id(
        &mut self,
        id: RecordId,
        doc: &crate::update_program_dto::UpdateDocument,
        now: i64,
    ) -> (matched: usize)
        requires
            old(self).wf(),
        ensures
            final(self).wf(),
            contains_rec_id(old(self)@, id) ==> matched == 1 && final(self)@ == old(self)@.update(
                rec_id_index(old(self)@, id),
                (ProgramModel {
                    update_time: now as int,
                    ..crate::update_program_dto::apply_entries(
                        old(self)@[rec_id_index(old(self)@, id)],
                        doc@,
                    )
                }),
            ),
            !contains_rec_id(old(self)@, id) ==> matched == 0 && final(self)@ == old(self)@,
    {
        match self.index_of_id(id) {
            Some(i) => {
                let mut rec = self.records[i].clone();
                crate::update_program_dto::apply_update(&mut rec, doc);
                rec.update_time = now;
                proof {
                    crate::update_program_dto::lemma_apply_entries_fixed_fields(
                        old(self)@[i as int],
                        doc@,
                    );
                }
                self.update_at(i, rec);
                1
            },
            None => 0,
        }
    }

    /// Answers the owner/base-name prefix query: the position of the
    /// single matching record, or nothing when no record — or more than
    /// one, the anomaly treated as no match — answers it.
    pub fn find_unique_prefix_match(&self, owner: i32, base: &[u8]) -> (r: Option<usize>)
        requires
            self.wf(),
        ensures
            match r {
                Some(i) => unique_match(self@, owner as int, base@) == Option::Some(i as int) && i
                    < self@.len() && is_match(self@[i as int], owner as int, base@),
                None => unique_match(self@, owner as int, base@) is None,
            },
    {
        let ghost s = self@;
        let mut cnt: usize = 0;
        let mut found: usize = 0;
        let mut i: usize = 0;
        proof {
            assert(s.subrange(0, 0) =~= Seq::<ProgramModel>::empty());
        }
        while i < self.records.len()
            invariant
                i <= s.len() == self.records@.len(),
                s == self@,
                cnt == match_count(s.subrange(0, i as int), owner as int, base@),
                cnt <= i,
                cnt >= 1 ==> found < i && is_match(s[found as int], owner as int, base@),
            decreases s.len() - i,
        {
            proof {
                let sub = s.subrange(0, i + 1);
                assert(sub.drop_last() =~= s.subrange(0, i as int));
                assert(sub.last() == s[i as int]);
                assert(s[i as int] == self.records@[i as int]@);
            }
            let rec = &self.records[i];
            if rec.owner_id == owner && starts_with_ci(base, rec.filename.as_slice()) {
                proof {
                    assert(is_match(s[i as int], owner as int, base@));
                }
                if cnt == 0 {
                    found = i;
                }
                cnt += 1;
            }
            i += 1;
        }
        proof {
            assert(s.subrange(0, s.len() as int) =~= s);
        }
        if cnt == 1 {
            proof {
                let k = match_index(s, owner as int, base@);
                assert(is_match(s[found as int], owner as int, base@));
                assert(s[k] == s[match_index(s, owner as int, base@)]);
                if k != found as int {
                    if k < found as int {
                        lemma_match_count_two(s, owner as int, base@, k, found as int);
                    } else {
                        lemma_match_count_two(s, owner as int, base@, found as int, k);
                    }
                }
            }
            Some(found)
        } else {
            None
        }
    }

    /// All records belonging to `owner`, in repository order.
    pub fn records_of_owner(&self, owner: i32) -> (r: Vec<Program>)
        ensures
            r@.map_values(|p: Program| p@) == owner_records(self@, owner as int),
    {
        let ghost s = self@;
        let mut out: Vec<Program> = Vec::new();
        let mut i: usize = 0;
        proof {
            assert(s.subrange(0, 0) =~= Seq::<ProgramModel>::empty());
            assert(out@.map_values(|p: Program| p@) =~= owner_records(s.subrange(0, 0), owner as int));
        }
        while i < self.records.len()
            invariant
                i <= s.len() == self.records@.len(),
                s == self@,
                out@.map_values(|p: Program| p@) == owner_records(s.subrange(0, i as int), owner as int),
            decreases s.len() - i,
        {
            proof {
                let sub = s.subrange(0, i + 1);
                assert(sub.drop_last() =~= s.subrange(0, i as int));
                assert(sub.last() == s[i as int]);
                assert(s[i as int] == self.records@[i as int]@);
            }
            let rec = &self.records[i];
            if rec.owner_id == owner {
                out.push(rec.clone());
                proof {
                    assert(out@.map_values(|p: Program| p@) =~= owner_records(
                        s.subrange(0, i + 1),
                        owner as int,
                    ));
                }
            } else {
                proof {
                    assert(out@.map_values(|p: Program| p@) =~= owner_records(
                        s.subrange(0, i + 1),
                        owner as int,
                    ));
                }
            }
            i += 1;
        }
        proof {
            assert(s.subrange(0, s.len() as int) =~= s);
        }
        out
    }
}

} // verus!
