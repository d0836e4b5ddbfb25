//! Pipelines: ordered sequences of content steps.
//!
//! A pipeline is persisted only after every step reference has been
//! checked against the existing content records, in order and
//! fail-fast: the first malformed or missing reference aborts the whole
//! write and names the offending step.  Later deletions of referenced
//! content are not re-checked — a documented gap, not enforced here.

use vstd::prelude::*;
use crate::error::ContentError;
use crate::ids::{id_of_text, is_valid_id_text, parse_record_id, RecordId};
use crate::program::ProgramModel;
use crate::repo::{contains_rec_id, ContentRepo};

verus! {

/// Mathematical model of a pipeline record.
pub ghost struct PipelineModel {
    pub id: RecordId,
    pub owner_id: int,
    pub name: Seq<char>,
    pub description: Seq<char>,
    pub steps: Seq<Seq<u8>>,
    pub created_date: Seq<char>,
}

/// A persisted pipeline.
#[derive(Debug)]
pub struct Pipeline {
    pub id: RecordId,
    pub owner_id: i32,
    pub name: String,
    pub description: String,
    pub steps: Vec<Vec<u8>>,
    pub created_date: String,
}

impl View for Pipeline {
    type V = PipelineModel;

    open spec fn view(&self) -> PipelineModel {
        PipelineModel {
            id: self.id,
            owner_id: self.owner_id as int,
            name: self.name@,
            description: self.description@,
            steps: self.steps@.map_values(|v: Vec<u8>| v@),
            created_date: self.created_date@,
        }
    }
}

/// Copies a sequence of byte strings.
fn clone_byte_vecs(v: &Vec<Vec<u8>>) -> (r: Vec<Vec<u8>>)
    ensures
        r@.map_values(|x: Vec<u8>| x@) == v@.map_values(|x: Vec<u8>| x@),
{
    let mut r: Vec<Vec<u8>> = Vec::new();
    let mut i: usize = 0;
    while i < v.len()
        invariant
            i <= v@.len(),
            r@.len() == i,
            forall|j: int| 0 <= j < i ==> r@[j]@ == v@[j]@,
        decreases v@.len() - i,
    {
        r.push(v[i].clone());
        i += 1;
    }
    proof {
        assert(r@.map_values(|x: Vec<u8>| x@) =~= v@.map_values(|x: Vec<u8>| x@));
    }
    r
}

impl Clone for Pipeline {
    /// A clone carries the same pipeline contents.
    fn clone(&self) -> (r: Self)
        ensures
            r@ == self@,
    {
        Pipeline {
            id: self.id,
            owner_id: self.owner_id,
            name: self.name.clone(),
            description: self.description.clone(),
            steps: clone_byte_vecs(&self.steps),
            created_date: self.created_date.clone(),
        }
    }
}

/// A request to create a pipeline.
#[derive(Debug)]
pub struct CreatePipeline {
    pub owner_id: i32,
    pub name: String,
    pub description: String,
    pub steps: Vec<Vec<u8>>,
}

impl CreatePipeline {
    /// The pipeline this request creates, under a given id and creation
    /// date.
    pub fn into_pipeline(self, id: RecordId, created_date: String) -> (r: Pipeline)
        ensures
            r@ == (PipelineModel {
                id,
                owner_id: self.owner_id as int,
                name: self.name@,
                description: self.description@,
                steps: self.steps@.map_values(|v: Vec<u8>| v@),
                created_date: created_date@,
            }),
    {
        Pipeline {
            id,
            owner_id: self.owner_id,
            name: self.name,
            description: self.description,
            steps: self.steps,
            created_date,
        }
    }
}

/// A request to update a pipeline; empty fields are left untouched.
#[derive(Debug)]
pub struct UpdatePipeline {
    pub name: String,
    pub description: String,
    pub steps: Vec<Vec<u8>>,
}

/// Mathematical model of an update request.
pub ghost struct UpdatePipelineModel {
    pub name: Seq<char>,
    pub description: Seq<char>,
    pub steps: Seq<Seq<u8>>,
}

impl View for UpdatePipeline {
    type V = UpdatePipelineModel;

    open spec fn view(&self) -> UpdatePipelineModel {
        UpdatePipelineModel {
            name: self.name@,
            description: self.description@,
            steps: self.steps@.map_values(|v: Vec<u8>| v@),
        }
    }
}

/// Mathematical model of one pipeline patch entry.
pub ghost enum PipelinePatchEntryModel {
    Name(Seq<char>),
    Description(Seq<char>),
    Steps(Seq<Seq<u8>>),
}

/// One field-value pair of a pipeline patch.
#[derive(Debug)]
pub enum PipelinePatchEntry {
    Name(String),
    Description(String),
    Steps(Vec<Vec<u8>>),
}

impl View for PipelinePatchEntry {
    type V = PipelinePatchEntryModel;

    open spec fn view(&self) -> PipelinePatchEntryModel {
        match self {
            PipelinePatchEntry::Name(v) => PipelinePatchEntryModel::Name(v@),
            PipelinePatchEntry::Description(v) => PipelinePatchEntryModel::Description(v@),
            PipelinePatchEntry::Steps(v) => PipelinePatchEntryModel::Steps(
                v@.map_values(|x: Vec<u8>| x@),
            ),
        }
    }
}

/// A sparse pipeline update, in the fixed field order.
#[derive(Debug)]
pub struct PipelineUpdateDocument {
    pub entries: Vec<PipelinePatchEntry>,
}

impl View for PipelineUpdateDocument {
    type V = Seq<PipelinePatchEntryModel>;

    open spec fn view(&self) -> Seq<PipelinePatchEntryModel> {
        self.entries@.map_values(|e: PipelinePatchEntry| e@)
    }
}

/// The entries a pipeline update holds: one per non-empty field, in the
/// fixed field order.  An empty field means "leave it as it is".
pub open spec fn pipeline_patch_entries(u: UpdatePipelineModel) -> Seq<PipelinePatchEntryModel> {
    (if u.name.len() > 0 {
        seq![PipelinePatchEntryModel::Name(u.name)]
    } else {
        Seq::empty()
    }) + (if u.description.len() > 0 {
        seq![PipelinePatchEntryModel::Description(u.description)]
    } else {
        Seq::empty()
    }) + (if u.steps.len() > 0 {
        seq![PipelinePatchEntryModel::Steps(u.steps)]
    } else {
        Seq::empty()
    })
}

impl UpdatePipeline {
    /// Builds the sparse update for this request: exactly the non-empty
    /// fields, in the fixed field order.
    pub fn build_update_document(&self) -> (r: PipelineUpdateDocument)
        ensures
            r@ == pipeline_patch_entries(self@),
    {
        let mut entries: Vec<PipelinePatchEntry> = Vec::new();
        if !self.name.as_str().is_empty() {
            entries.push(PipelinePatchEntry::Name(self.name.clone()));
        }
        if !self.description.as_str().is_empty() {
            entries.push(PipelinePatchEntry::Description(self.description.clone()));
        }
        if self.steps.len() > 0 {
            entries.push(PipelinePatchEntry::Steps(clone_byte_vecs(&self.steps)));
        }
        let r = PipelineUpdateDocument { entries };
        proof {
            assert(r@ =~= pipeline_patch_entries(self@));
        }
        r
    }
}

/// The pipeline after one patch entry is applied.
pub open spec fn apply_pipeline_entry(p: PipelineModel, e: PipelinePatchEntryModel) -> PipelineModel {
    match e {
        PipelinePatchEntryModel::Name(v) => PipelineModel { name: v, ..p },
        PipelinePatchEntryModel::Description(v) => PipelineModel { description: v, ..p },
        PipelinePatchEntryModel::Steps(v) => PipelineModel { steps: v, ..p },
    }
}

/// The pipeline after a patch is applied entry by entry, first to last.
pub open spec fn apply_pipeline_entries(p: PipelineModel, s: Seq<PipelinePatchEntryModel>) -> PipelineModel
    decreases s.len(),
{
    if s.len() == 0 {
        p
    } else {
        apply_pipeline_entry(apply_pipeline_entries(p, s.drop_last()), s.last())
    }
}

/// A patch never changes a pipeline's id or owner.
pub proof fn lemma_apply_pipeline_entries_fixed_fields(p: PipelineModel, s: Seq<PipelinePatchEntryModel>)
    ensures
        apply_pipeline_entries(p, s).id == p.id,
        apply_pipeline_entries(p, s).owner_id == p.owner_id,
        apply_pipeline_entries(p, s).created_date == p.created_date,
    decreases s.len(),
{
    if s.len() > 0 {
        lemma_apply_pipeline_entries_fixed_fields(p, s.drop_last());
    }
}

/// Applies a patch to a pipeline, leaving empty fields untouched.
fn apply_pipeline_update(p: &mut Pipeline, doc: &PipelineUpdateDocument)
    ensures
        final(p)@ == apply_pipeline_entries(old(p)@, doc@),
{
    let ghost entries = doc@;
    let mut i: usize = 0;
    proof {
        assert(entries.subrange(0, 0) =~= Seq::<PipelinePatchEntryModel>::empty());
    }
    while i < doc.entries.len()
        invariant
            i <= entries.len() == doc.entries@.len(),
            entries == doc@,
            p@ == apply_pipeline_entries(old(p)@, entries.subrange(0, i as int)),
        decreases entries.len() - i,
    {
        proof {
            let sub = entries.subrange(0, i + 1);
            assert(sub.drop_last() =~= entries.subrange(0, i as int));
            assert(sub.last() == entries[i as int]);
            assert(entries[i as int] == doc.entries@[i as int]@);
        }
        match &doc.entries[i] {
            PipelinePatchEntry::Name(v) => {
                p.name = v.clone();
            },
            PipelinePatchEntry::Description(v) => {
                p.description = v.clone();
            },
            PipelinePatchEntry::Steps(v) => {
                p.steps = clone_byte_vecs(v);
            },
        }
        i += 1;
    }
    proof {
        assert(entries.subrange(0, entries.len() as int) =~= entries);
    }
}

/// Why a pipeline write was rejected.
#[derive(Debug, PartialEq, Eq)]
pub enum StepError {
    /// The step at `index` is not a well-formed record id.
    Malformed { index: usize, step: Vec<u8> },
    /// The step at `index` names no existing content record.
    Missing { index: usize, step: Vec<u8> },
}

/// Why a pipeline operation failed.
#[derive(Debug, PartialEq, Eq)]
pub enum PipelineError {
    /// The pipeline id in the request is malformed.
    InvalidId,
    /// A step reference was rejected; the pipeline was not persisted.
    Step(StepError),
    /// No pipeline carries the requested id.
    NotFound,
    /// A database call failed.
    Dependency,
}

/// Does the step reference resolve to an existing content record?
pub open spec fn step_ok(repo: Seq<ProgramModel>, s: Seq<u8>) -> bool {
    is_valid_id_text(s) && contains_rec_id(repo, id_of_text(s))
}

/// Validates every step reference of a pipeline against the existing
/// content records, in order and fail-fast: the result names the first
/// malformed or missing step, and is `Ok` exactly when every step
/// resolves.
pub fn validate_steps(content: &ContentRepo, steps: &Vec<Vec<u8>>) -> (r: Result<(), StepError>)
    requires
        content.wf(),
    ensures
        match r {
            Ok(u) => u == () && forall|i: int|
                0 <= i < steps@.len() ==> step_ok(content@, #[trigger] steps@[i]@),
            Err(StepError::Malformed { index, step }) => index < steps@.len() && !is_valid_id_text(
                steps@[index as int]@,
            ) && step@ == steps@[index as int]@ && forall|j: int|
                0 <= j < index ==> step_ok(content@, #[trigger] steps@[j]@),
            Err(StepError::Missing { index, step }) => index < steps@.len() && is_valid_id_text(
                steps@[index as int]@,
            ) && !contains_rec_id(content@, id_of_text(steps@[index as int]@)) && step@
                == steps@[index as int]@ && forall|j: int|
                0 <= j < index ==> step_ok(content@, #[trigger] steps@[j]@),
        },
{
    let mut i: usize = 0;
    while i < steps.len()
        invariant
            i <= steps@.len(),
            content.wf(),
            forall|j: int| 0 <= j < i ==> step_ok(content@, #[trigger] steps@[j]@),
        decreases steps@.len() - i,
    {
        match parse_record_id(steps[i].as_slice()) {
            Some(id) => {
                if !content.contains_id(id) {
                    return Err(StepError::Missing { index: i, step: steps[i].clone() });
                }
            },
            None => {
                return Err(StepError::Malformed { index: i, step: steps[i].clone() });
            },
        }
        i += 1;
    }
    Ok(())
}

/// Some pipeline in `s` carries `id`.
pub open spec fn contains_pipe_id(s: Seq<PipelineModel>, id: RecordId) -> bool {
    exists|i: int| 0 <= i < s.len() && s[i].id == id
}

/// The index of the pipeline carrying `id`.
pub open spec fn pipe_id_index(s: Seq<PipelineModel>, id: RecordId) -> int {
    choose|i: int| 0 <= i < s.len() && s[i].id == id
}

/// No two pipelines share an id.
pub open spec fn pipe_ids_unique(s: Seq<PipelineModel>) -> bool {
    forall|i: int, j: int| 0 <= i < j < s.len() ==> s[i].id != s[j].id
}

/// The pipelines belonging to `owner`, in repository order.
pub open spec fn owner_pipelines(s: Seq<PipelineModel>, owner: int) -> Seq<PipelineModel>
    decreases s.len(),
{
    if s.len() == 0 {
        Seq::empty()
    } else if s.last().owner_id == owner {
        owner_pipelines(s.drop_last(), owner).push(s.last())
    } else {
        owner_pipelines(s.drop_last(), owner)
    }
}

/// The collection of pipeline records.
#[derive(Debug)]
pub struct PipelineRepo {
    pub records: Vec<Pipeline>,
}

impl View for PipelineRepo {
    type V = Seq<PipelineModel>;

    open spec fn view(&self) -> Seq<PipelineModel> {
        self.records@.map_values(|p: Pipeline| p@)
    }
}

impl PipelineRepo {
    /// No two pipelines share an id.
    pub open spec fn wf(&self) -> bool {
        pipe_ids_unique(self@)
    }

    /// An empty repository.
    pub fn new() -> (r: PipelineRepo)
        ensures
            r@ == Seq::<PipelineModel>::empty(),
            r.wf(),
    {
        let r = PipelineRepo { records: Vec::new() };
        proof {
            assert(r@ =~= Seq::<PipelineModel>::empty());
        }
        r
    }

    /// How many pipelines the repository holds.
    pub fn record_count(&self) -> (r: usize)
        ensures
            r == self@.len(),
    {
        self.records.len()
    }

    fn index_of_id(&self, id: RecordId) -> (r: Option<usize>)
        requires
            self.wf(),
        ensures
            match r {
                Some(i) => contains_pipe_id(self@, id) && i < self@.len() && self@[i as int].id
                    == id && pipe_id_index(self@, id) == i as int,
                None => !contains_pipe_id(self@, id),
            },
    {
        let mut i: usize = 0;
        while i < self.records.len()
            invariant
                i <= self@.len() == self.records@.len(),
                self.wf(),
                forall|j: int| 0 <= j < i ==> self@[j].id != id,
            decreases self@.len() - i,
        {
            proof {
                assert(self@[i as int] == self.records@[i as int]@);
            }
            if self.records[i].id.hi == id.hi && self.records[i].id.lo == id.lo {
                proof {
                    assert(self@[i as int].id == id);
                    let k = pipe_id_index(self@, id);
                    assert(self@[k].id == id);
                    assert(k == i as int);
                }
                return Some(i);
            }
            i += 1;
        }
        None
    }

    /// Does a pipeline with `id` exist?
    pub fn contains_id(&self, id: RecordId) -> (r: bool)
        requires
            self.wf(),
        ensures
            r == contains_pipe_id(self@, id),
    {
        match self.index_of_id(id) {
            Some(_) => true,
            None => false,
        }
    }

    /// The pipeline carrying `id`, if any.
    pub fn find_by_id(&self, id: RecordId) -> (r: Option<&Pipeline>)
        requires
            self.wf(),
        ensures
            match r {
                Some(p) => contains_pipe_id(self@, id) && p@ == self@[pipe_id_index(self@, id)]
                    && p@.id == id,
                None => !contains_pipe_id(self@, id),
            },
    {
        match self.index_of_id(id) {
            Some(i) => Some(&self.records[i]),
            None => None,
        }
    }

    /// Adds a pipeline under a fresh id.
    pub fn insert(&mut self, p: Pipeline)
        requires
            old(self).wf(),
            !contains_pipe_id(old(self)@, p@.id),
        ensures
            final(self)@ == old(self)@.push(p@),
            final(self).wf(),
    {
        self.records.push(p);
        proof {
            assert(self@ =~= old(self)@.push(self.records@.last()@));
            assert forall|i: int, j: int| 0 <= i < j < self@.len() implies self@[i].id
                != self@[j].id by {
                if j == self@.len() - 1 {
                    assert(!(self@[i].id == self@[j].id));
                }
            }
        }
    }

    /// Removes the pipeline carrying `id`; reports how many were
    /// removed.
    pub fn delete_by_id(&mut self, id: RecordId) -> (count: usize)
        requires
            old(self).wf(),
        ensures
            final(self).wf(),
            contains_pipe_id(old(self)@, id) ==> count == 1 && final(self)@ == old(self)@.remove(
                pipe_id_index(old(self)@, id),
            ),
            !contains_pipe_id(old(self)@, id) ==> count == 0 && final(self)@ == old(self)@,
    {
        match self.index_of_id(id) {
            Some(i) => {
                self.records.remove(i);
                proof {
                    assert(self@ =~= old(self)@.remove(i as int));
                    assert forall|a: int, b: int| 0 <= a < b < self@.len() implies self@[a].id
                        != self@[b].id by {
                        let a0 = if a < i as int { a } else { a + 1 };
                        let b0 = if b < i as int { b } else { b + 1 };
                        assert(self@[a] == old(self)@[a0]);
                        assert(self@[b] == old(self)@[b0]);
                        assert(old(self)@[a0].id != old(self)@[b0].id);
                    }
                }
                1
            },
            None => 0,
        }
    }

    /// Applies a sparse update to the pipeline carrying `id`; reports
    /// how many matched.
    pub fn patch_by_id(&mut self, id: RecordId, doc: &PipelineUpdateDocument) -> (matched: usize)
        requires
            old(self).wf(),
        ensures
            final(self).wf(),
            contains_pipe_id(old(self)@, id) ==> matched == 1 && final(self)@ == old(self)@.update(
                pipe_id_index(old(self)@, id),
                apply_pipeline_entries(old(self)@[pipe_id_index(old(self)@, id)], doc@),
            ),
            !contains_pipe_id(old(self)@, id) ==> matched == 0 && final(self)@ == old(self)@,
    {
        match self.index_of_id(id) {
            Some(i) => {
                let mut rec = self.records[i].clone();
                apply_pipeline_update(&mut rec, doc);
                proof {
                    lemma_apply_pipeline_entries_fixed_fields(old(self)@[i as int], doc@);
                }
                self.records.remove(i);
                self.records.insert(i, rec);
                proof {
                    assert(self@ =~= old(self)@.update(
                        i as int,
                        apply_pipeline_entries(old(self)@[i as int], doc@),
                    ));
                    assert forall|a: int, b: int| 0 <= a < b < self@.len() implies self@[a].id
                        != self@[b].id by {
                        assert(old(self)@[a].id != old(self)@[b].id);
                    }
                }
                1
            },
            None => 0,
        }
    }

    /// All pipelines, in repository order.
    pub fn list_all(&self) -> (r: Vec<Pipeline>)
        ensures
            r@.map_values(|p: Pipeline| p@) == self@,
    {
        let mut out: Vec<Pipeline> = Vec::new();
        let mut i: usize = 0;
        while i < self.records.len()
            invariant
                i <= self.records@.len(),
                out@.len() == i,
                forall|j: int| 0 <= j < i ==> out@[j]@ == self.records@[j]@,
            decreases self.records@.len() - i,
        {
            out.push(self.records[i].clone());
            i += 1;
        }
        proof {
            assert(out@.map_values(|p: Pipeline| p@) =~= self@);
        }
        out
    }

    /// All pipelines belonging to `owner`, in repository order.
    pub fn pipelines_of_owner(&self, owner: i32) -> (r: Vec<Pipeline>)
        ensures
            r@.map_values(|p: Pipeline| p@) == owner_pipelines(self@, owner as int),
    {
        let ghost s = self@;
        let mut out: Vec<Pipeline> = Vec::new();
        let mut i: usize = 0;
        proof {
            assert(s.subrange(0, 0) =~= Seq::<PipelineModel>::empty());
            assert(out@.map_values(|p: Pipeline| p@) =~= owner_pipelines(
                s.subrange(0, 0),
                owner as int,
            ));
        }
        while i < self.records.len()
            invariant
                i <= s.len() == self.records@.len(),
                s == self@,
                out@.map_values(|p: Pipeline| p@) == owner_pipelines(
                    s.subrange(0, i as int),
                    owner as int,
                ),
            decreases s.len() - i,
        {
            proof {
                let sub = s.subrange(0, i + 1);
                assert(sub.drop_last() =~= s.subrange(0, i as int));
                assert(sub.last() == s[i as int]);
                assert(s[i as int] == self.records@[i as int]@);
            }
            let rec = &self.records[i];
            if rec.owner_id == owner {
                out.push(rec.clone());
                proof {
                    assert(out@.map_values(|p: Pipeline| p@) =~= owner_pipelines(
                        s.subrange(0, i + 1),
                        owner as int,
                    ));
                }
            } else {
                proof {
                    assert(out@.map_values(|p: Pipeline| p@) =~= owner_pipelines(
                        s.subrange(0, i + 1),
                        owner as int,
                    ));
                }
            }
            i += 1;
        }
        proof {
            assert(s.subrange(0, s.len() as int) =~= s);
        }
        out
    }
}

/// Looks up the pipeline addressed by a textual id.
pub fn get_pipeline<'a>(repo: &'a PipelineRepo, id_text: &[u8]) -> (r: Result<
    &'a Pipeline,
    PipelineError,
>)
    requires
        repo.wf(),
    ensures
        !is_valid_id_text(id_text@) ==> (r matches Err(e) && e == PipelineError::InvalidId),
        is_valid_id_text(id_text@) && !contains_pipe_id(repo@, id_of_text(id_text@)) ==> (r matches
            Err(e) && e == PipelineError::NotFound),
        is_valid_id_text(id_text@) && contains_pipe_id(repo@, id_of_text(id_text@)) ==> (r matches
            Ok(p) && p@ == repo@[pipe_id_index(repo@, id_of_text(id_text@))]),
{
    let id = match parse_record_id(id_text) {
        Some(id) => id,
        None => {
            return Err(PipelineError::InvalidId);
        },
    };
    match repo.find_by_id(id) {
        Some(p) => Ok(p),
        None => Err(PipelineError::NotFound),
    }
}

/// Deletes the pipeline addressed by a textual id; content records the
/// pipeline referenced are not touched.
pub fn delete_pipeline(repo: &mut PipelineRepo, id_text: &[u8]) -> (r: Result<(), PipelineError>)
    requires
        old(repo).wf(),
    ensures
        final(repo).wf(),
        !is_valid_id_text(id_text@) ==> (r matches Err(e) && e == PipelineError::InvalidId && final(repo)@ == old(repo)@),
        is_valid_id_text(id_text@) && !contains_pipe_id(old(repo)@, id_of_text(id_text@)) ==> (r
            matches Err(e) && e == PipelineError::NotFound && final(repo)@ == old(repo)@),
        is_valid_id_text(id_text@) && contains_pipe_id(old(repo)@, id_of_text(id_text@)) ==> (r
            matches Ok(u) && u == () && final(repo)@ == old(repo)@.remove(
            pipe_id_index(old(repo)@, id_of_text(id_text@)),
        )),
{
    let id = match parse_record_id(id_text) {
        Some(id) => id,
        None => {
            return Err(PipelineError::InvalidId);
        },
    };
    let removed = repo.delete_by_id(id);
    if removed == 1 {
        Ok(())
    } else {
        Err(PipelineError::NotFound)
    }
}

/// Creates a pipeline after validating every step reference.
///
/// The pipeline is persisted only when every step resolves to an
/// existing content record; the first offending step aborts the write
/// with the repository unchanged.
pub fn create_pipeline(
    repo: &mut PipelineRepo,
    content: &ContentRepo,
    create: CreatePipeline,
    id: RecordId,
    created_date: String,
) -> (r: Result<Pipeline, PipelineError>)
    requires
        old(repo).wf(),
        content.wf(),
        !contains_pipe_id(old(repo)@, id),
    ensures
        final(repo).wf(),
        (r is Ok) == (forall|i: int|
            0 <= i < create.steps@.len() ==> step_ok(content@, #[trigger] create.steps@[i]@)),
        r matches Err(e) ==> (e matches PipelineError::Step(_) && final(repo)@ == old(repo)@),
        r matches Ok(p) ==> (p@ == (PipelineModel {
            id,
            owner_id: create.owner_id as int,
            name: create.name@,
            description: create.description@,
            steps: create.steps@.map_values(|v: Vec<u8>| v@),
            created_date: created_date@,
        }) && final(repo)@ == old(repo)@.push(p@)),
{
    match validate_steps(content, &create.steps) {
        Ok(_) => {},
        Err(e) => {
            return Err(PipelineError::Step(e));
        },
    }
    let pipeline = create.into_pipeline(id, created_date);
    let stored = pipeline.clone();
    repo.insert(stored);
    Ok(pipeline)
}

/// Updates the pipeline addressed by a textual id after validating
/// every step reference in the request.
///
/// The first offending step aborts the write with the repository
/// unchanged; otherwise exactly the non-empty fields of the request are
/// rewritten and the updated pipeline is returned.
pub fn update_pipeline(
    repo: &mut PipelineRepo,
    content: &ContentRepo,
    id_text: &[u8],
    update: &UpdatePipeline,
) -> (r: Result<Pipeline, PipelineError>)
    requires
        old(repo).wf(),
        content.wf(),
    ensures
        final(repo).wf(),
        !is_valid_id_text(id_text@) ==> (r matches Err(e) && e == PipelineError::InvalidId && final(repo)@ == old(repo)@),
        r matches Err(e) ==> final(repo)@ == old(repo)@,
        is_valid_id_text(id_text@) ==> ((r matches Err(e) && e matches PipelineError::Step(_))
            == !(forall|i: int|
            0 <= i < update.steps@.len() ==> step_ok(content@, #[trigger] update.steps@[i]@))),
        is_valid_id_text(id_text@) && (forall|i: int|
            0 <= i < update.steps@.len() ==> step_ok(content@, #[trigger] update.steps@[i]@))
            && !contains_pipe_id(old(repo)@, id_of_text(id_text@)) ==> (r matches Err(e) && e
            == PipelineError::NotFound),
        is_valid_id_text(id_text@) && (forall|i: int|
            0 <= i < update.steps@.len() ==> step_ok(content@, #[trigger] update.steps@[i]@))
            && contains_pipe_id(old(repo)@, id_of_text(id_text@)) ==> (r matches Ok(p) && p@
            == apply_pipeline_entries(
            old(repo)@[pipe_id_index(old(repo)@, id_of_text(id_text@))],
            pipeline_patch_entries(update@),
        ) && final(repo)@ == old(repo)@.update(
            pipe_id_index(old(repo)@, id_of_text(id_text@)),
            p@,
        )),
{
    let id = match parse_record_id(id_text) {
        Some(id) => id,
        None => {
            return Err(PipelineError::InvalidId);
        },
    };
    match validate_steps(content, &update.steps) {
        Ok(_) => {},
        Err(e) => {
            return Err(PipelineError::Step(e));
        },
    }
    let doc = update.build_update_document();
    let matched = repo.patch_by_id(id, &doc);
    if matched == 0 {
        return Err(PipelineError::NotFound);
    }
    proof {
        let idx = pipe_id_index(old(repo)@, id);
        lemma_apply_pipeline_entries_fixed_fields(
            old(repo)@[idx],
            pipeline_patch_entries(update@),
        );
        assert(repo@[idx].id == id);
        assert(contains_pipe_id(repo@, id));
        let k = pipe_id_index(repo@, id);
        assert(repo@[k].id == id);
        assert(k == idx);
    }
    match repo.find_by_id(id) {
        Some(p) => Ok(p.clone()),
        None => Err(PipelineError::NotFound),
    }
}

} // verus!
