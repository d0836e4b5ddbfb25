//! The metadata patch builder for content records.
//!
//! An update request carries only the fields it wants changed.  The
//! patch built from it contains exactly the fields that are present, so
//! applying it never clobbers an unrelated field.  The caller combines
//! the patch with a fresh last-updated stamp and applies it to the
//! record matched by id.

use vstd::prelude::*;
use crate::program::{Program, ProgramModel};

verus! {

/// The record fields an update request may carry.
#[derive(Clone, Copy, PartialEq, Eq, Structural, Debug)]
pub enum PatchField {
    Filename,
    CodeUrl,
    ContentType,
    FileSize,
    InputType,
    OutputType,
    FilePath,
}

/// Mathematical model of one patch entry.
pub ghost enum PatchEntryModel {
    Filename(Seq<u8>),
    CodeUrl(Seq<u8>),
    ContentType(Seq<u8>),
    FileSize(int),
    InputType(Seq<u8>),
    OutputType(Seq<u8>),
    FilePath(Seq<u8>),
}

/// One field-value pair of a patch.
#[derive(Debug)]
pub enum PatchEntry {
    Filename(Vec<u8>),
    CodeUrl(Vec<u8>),
    ContentType(Vec<u8>),
    FileSize(i64),
    InputType(Vec<u8>),
    OutputType(Vec<u8>),
    FilePath(Vec<u8>),
}

impl View for PatchEntry {
    type V = PatchEntryModel;

    open spec fn view(&self) -> PatchEntryModel {
        match self {
            PatchEntry::Filename(v) => PatchEntryModel::Filename(v@),
            PatchEntry::CodeUrl(v) => PatchEntryModel::CodeUrl(v@),
            PatchEntry::ContentType(v) => PatchEntryModel::ContentType(v@),
            PatchEntry::FileSize(v) => PatchEntryModel::FileSize(*v as int),
            PatchEntry::InputType(v) => PatchEntryModel::InputType(v@),
            PatchEntry::OutputType(v) => PatchEntryModel::OutputType(v@),
            PatchEntry::FilePath(v) => PatchEntryModel::FilePath(v@),
        }
    }
}

/// The field a patch entry sets.
pub open spec fn entry_field(e: PatchEntryModel) -> PatchField {
    match e {
        PatchEntryModel::Filename(_) => PatchField::Filename,
        PatchEntryModel::CodeUrl(_) => PatchField::CodeUrl,
        PatchEntryModel::ContentType(_) => PatchField::ContentType,
        PatchEntryModel::FileSize(_) => PatchField::FileSize,
        PatchEntryModel::InputType(_) => PatchField::InputType,
        PatchEntryModel::OutputType(_) => PatchField::OutputType,
        PatchEntryModel::FilePath(_) => PatchField::FilePath,
    }
}

/// Does the patch set field `f`?
pub open spec fn has_field(s: Seq<PatchEntryModel>, f: PatchField) -> bool {
    exists|i: int| 0 <= i < s.len() && entry_field(#[trigger] s[i]) == f
}

/// A sparse update: the field-value pairs to set, in a fixed field
/// order.
#[derive(Debug)]
pub struct UpdateDocument {
    pub entries: Vec<PatchEntry>,
}

impl View for UpdateDocument {
    type V = Seq<PatchEntryModel>;

    open spec fn view(&self) -> Seq<PatchEntryModel> {
        self.entries@.map_values(|e: PatchEntry| e@)
    }
}

/// Mathematical model of an update request.
pub ghost struct UpdateProgramDtoModel {
    pub filename: Option<Seq<u8>>,
    pub code_url: Option<Seq<u8>>,
    pub content_type: Option<Seq<u8>>,
    pub file_size: Option<int>,
    pub input_type: Option<Seq<u8>>,
    pub output_type: Option<Seq<u8>>,
    pub file_path: Option<Seq<u8>>,
}

/// An update request for a content record: absent fields are left
/// untouched by the update.
#[derive(Debug)]
pub struct UpdateProgramDto {
    pub filename: Option<Vec<u8>>,
    pub code_url: Option<Vec<u8>>,
    pub content_type: Option<Vec<u8>>,
    pub file_size: Option<i64>,
    pub input_type: Option<Vec<u8>>,
    pub output_type: Option<Vec<u8>>,
    pub file_path: Option<Vec<u8>>,
}

impl View for UpdateProgramDto {
    type V = UpdateProgramDtoModel;

    open spec fn view(&self) -> UpdateProgramDtoModel {
        UpdateProgramDtoModel {
            filename: match self.filename {
                Option::Some(ref v) => Option::Some(v@),
                Option::None => Option::None,
            },
            code_url: match self.code_url {
                Option::Some(ref v) => Option::Some(v@),
                Option::None => Option::None,
            },
            content_type: match self.content_type {
                Option::Some(ref v) => Option::Some(v@),
                Option::None => Option::None,
            },
            file_size: match self.file_size {
                Option::Some(v) => Option::Some(v as int),
                Option::None => Option::None,
            },
            input_type: match self.input_type {
                Option::Some(ref v) => Option::Some(v@),
                Option::None => Option::None,
            },
            output_type: match self.output_type {
                Option::Some(ref v) => Option::Some(v@),
                Option::None => Option::None,
            },
            file_path: match self.file_path {
                Option::Some(ref v) => Option::Some(v@),
                Option::None => Option::None,
            },
        }
    }
}

/// The entries a request's patch holds: one entry per present field, in
/// the fixed field order.
pub open spec fn patch_entries(d: UpdateProgramDtoModel) -> Seq<PatchEntryModel> {
    (match d.filename {
        Option::Some(v) => seq![PatchEntryModel::Filename(v)],
        Option::None => Seq::empty(),
    }) + (match d.code_url {
        Option::Some(v) => seq![PatchEntryModel::CodeUrl(v)],
        Option::None => Seq::empty(),
    }) + (match d.content_type {
        Option::Some(v) => seq![PatchEntryModel::ContentType(v)],
        Option::None => Seq::empty(),
    }) + (match d.file_size {
        Option::Some(v) => seq![PatchEntryModel::FileSize(v)],
        Option::None => Seq::empty(),
    }) + (match d.input_type {
        Option::Some(v) => seq![PatchEntryModel::InputType(v)],
        Option::None => Seq::empty(),
    }) + (match d.output_type {
        Option::Some(v) => seq![PatchEntryModel::OutputType(v)],
        Option::None => Seq::empty(),
    }) + (match d.file_path {
        Option::Some(v) => seq![PatchEntryModel::FilePath(v)],
        Option::None => Seq::empty(),
    })
}

impl UpdateProgramDto {
    /// Builds the sparse update for this request: exactly the present
    /// fields, in the fixed field order.
    #[verifier::rlimit(100)]
    pub fn build_update_document(&self) -> (r: UpdateDocument)
        ensures
            r@ == patch_entries(self@),
    {
        let ghost d = self@;
        let ghost s1 = match d.filename {
            Option::Some(v) => seq![PatchEntryModel::Filename(v)],
            Option::None => Seq::<PatchEntryModel>::empty(),
        };
        let ghost s2 = match d.code_url {
            Option::Some(v) => seq![PatchEntryModel::CodeUrl(v)],
            Option::None => Seq::<PatchEntryModel>::empty(),
        };
        let ghost s3 = match d.content_type {
            Option::Some(v) => seq![PatchEntryModel::ContentType(v)],
            Option::None => Seq::<PatchEntryModel>::empty(),
        };
        let ghost s4 = match d.file_size {
            Option::Some(v) => seq![PatchEntryModel::FileSize(v)],
            Option::None => Seq::<PatchEntryModel>::empty(),
        };
        let ghost s5 = match d.input_type {
            Option::Some(v) => seq![PatchEntryModel::InputType(v)],
            Option::None => Seq::<PatchEntryModel>::empty(),
        };
        let ghost s6 = match d.output_type {
            Option::Some(v) => seq![PatchEntryModel::OutputType(v)],
            Option::None => Seq::<PatchEntryModel>::empty(),
        };
        let ghost s7 = match d.file_path {
            Option::Some(v) => seq![PatchEntryModel::FilePath(v)],
            Option::None => Seq::<PatchEntryModel>::empty(),
        };
        let mut entries: Vec<PatchEntry> = Vec::new();
        if let Some(v) = &self.filename {
            entries.push(PatchEntry::Filename(v.clone()));
        }
        proof {
            assert(entries@.map_values(|e: PatchEntry| e@) =~= s1);
        }
        if let Some(v) = &self.code_url {
            entries.push(PatchEntry::CodeUrl(v.clone()));
        }
        proof {
            assert(entries@.map_values(|e: PatchEntry| e@) =~= s1 + s2);
        }
        if let Some(v) = &self.content_type {
            entries.push(PatchEntry::ContentType(v.clone()));
        }
        proof {
            assert(entries@.map_values(|e: PatchEntry| e@) =~= s1 + s2 + s3);
        }
        if let Some(v) = &self.file_size {
            entries.push(PatchEntry::FileSize(*v));
        }
        proof {
            assert(entries@.map_values(|e: PatchEntry| e@) =~= s1 + s2 + s3 + s4);
        }
        if let Some(v) = &self.input_type {
            entries.push(PatchEntry::InputType(v.clone()));
        }
        proof {
            assert(entries@.map_values(|e: PatchEntry| e@) =~= s1 + s2 + s3 + s4 + s5);
        }
        if let Some(v) = &self.output_type {
            entries.push(PatchEntry::OutputType(v.clone()));
        }
        proof {
            assert(entries@.map_values(|e: PatchEntry| e@) =~= s1 + s2 + s3 + s4 + s5 + s6);
        }
        if let Some(v) = &self.file_path {
            entries.push(PatchEntry::FilePath(v.clone()));
        }
        proof {
            assert(entries@.map_values(|e: PatchEntry| e@) =~= s1 + s2 + s3 + s4 + s5 + s6 + s7);
        }
        let r = UpdateDocument { entries };
        proof {
            assert(patch_entries(d) == s1 + s2 + s3 + s4 + s5 + s6 + s7);
        }
        r
    }
}

/// The record after one patch entry is applied.
pub open spec fn apply_entry(rec: ProgramModel, e: PatchEntryModel) -> ProgramModel {
    match e {
        PatchEntryModel::Filename(v) => ProgramModel { filename: v, ..rec },
        PatchEntryModel::CodeUrl(v) => ProgramModel { code_url: v, ..rec },
        PatchEntryModel::ContentType(v) => ProgramModel { content_type: v, ..rec },
        PatchEntryModel::FileSize(v) => ProgramModel { file_size: v, ..rec },
        PatchEntryModel::InputType(v) => ProgramModel { input_type: v, ..rec },
        PatchEntryModel::OutputType(v) => ProgramModel { output_type: v, ..rec },
        PatchEntryModel::FilePath(v) => ProgramModel { file_path: v, ..rec },
    }
}

/// The record after a patch is applied entry by entry, first to last.
pub open spec fn apply_entries(rec: ProgramModel, s: Seq<PatchEntryModel>) -> ProgramModel
    decreases s.len(),
{
    if s.len() == 0 {
        rec
    } else {
        apply_entry(apply_entries(rec, s.drop_last()), s.last())
    }
}

/// Applies a patch to a record, leaving absent fields untouched.
pub fn apply_update(rec: &mut Program, doc: &UpdateDocument)
    ensures
        final(rec)@ == apply_entries(old(rec)@, doc@),
{
    let ghost entries = doc@;
    let mut i: usize = 0;
    proof {
        assert(entries.subrange(0, 0) =~= Seq::<PatchEntryModel>::empty());
    }
    while i < doc.entries.len()
        invariant
            i <= entries.len() == doc.entries@.len(),
            entries == doc@,
            rec@ == apply_entries(old(rec)@, entries.subrange(0, i as int)),
        decreases entries.len() - i,
    {
        proof {
            let sub = entries.subrange(0, i + 1);
            assert(sub.drop_last() =~= entries.subrange(0, i as int));
            assert(sub.last() == entries[i as int]);
            assert(entries[i as int] == doc.entries@[i as int]@);
        }
        match &doc.entries[i] {
            PatchEntry::Filename(v) => {
                rec.filename = v.clone();
            },
            PatchEntry::CodeUrl(v) => {
                rec.code_url = v.clone();
            },
            PatchEntry::ContentType(v) => {
                rec.content_type = v.clone();
            },
            PatchEntry::FileSize(v) => {
                rec.file_size = *v;
            },
            PatchEntry::InputType(v) => {
                rec.input_type = v.clone();
            },
            PatchEntry::OutputType(v) => {
                rec.output_type = v.clone();
            },
            PatchEntry::FilePath(v) => {
                rec.file_path = v.clone();
            },
        }
        i += 1;
    }
    proof {
        assert(entries.subrange(0, entries.len() as int) =~= entries);
    }
}

/// A patch never changes a record's id, owner or instants: only the
/// seven patchable fields.
pub proof fn lemma_apply_entries_fixed_fields(rec: ProgramModel, s: Seq<PatchEntryModel>)
    ensures
        apply_entries(rec, s).id == rec.id,
        apply_entries(rec, s).owner_id == rec.owner_id,
        apply_entries(rec, s).upload_time == rec.upload_time,
        apply_entries(rec, s).update_time == rec.update_time,
        apply_entries(rec, s).file_hash == rec.file_hash,
    decreases s.len(),
{
    if s.len() > 0 {
        lemma_apply_entries_fixed_fields(rec, s.drop_last());
    }
}

proof fn lemma_has_field_single(e: PatchEntryModel)
    ensures
        forall|f: PatchField| #[trigger] has_field(seq![e], f) == (entry_field(e) == f),
{
    assert forall|f: PatchField| #[trigger] has_field(seq![e], f) == (entry_field(e) == f) by {
        if entry_field(e) == f {
            assert(entry_field(seq![e][0]) == f);
        }
        if has_field(seq![e], f) {
            let i = choose|i: int| 0 <= i < seq![e].len() && entry_field(#[trigger] seq![e][i])
                == f;
            assert(i == 0);
        }
    }
}

proof fn lemma_has_field_concat(a: Seq<PatchEntryModel>, b: Seq<PatchEntryModel>)
    ensures
        forall|f: PatchField| #[trigger] has_field(a + b, f) == (has_field(a, f) || has_field(
            b,
            f,
        )),
{
    assert forall|f: PatchField| #[trigger] has_field(a + b, f) == (has_field(a, f) || has_field(
        b,
        f,
    )) by {
    if has_field(a, f) {
        let i = choose|i: int| 0 <= i < a.len() && entry_field(#[trigger] a[i]) == f;
        assert((a + b)[i] == a[i]);
        assert(has_field(a + b, f));
    }
    if has_field(b, f) {
        let i = choose|i: int| 0 <= i < b.len() && entry_field(#[trigger] b[i]) == f;
        assert((a + b)[a.len() + i] == b[i]);
        assert(has_field(a + b, f));
    }
    if has_field(a + b, f) {
        let i = choose|i: int| 0 <= i < (a + b).len() && entry_field(#[trigger] (a + b)[i]) == f;
        if i < a.len() {
            assert((a + b)[i] == a[i]);
            assert(has_field(a, f));
        } else {
            assert((a + b)[i] == b[i - a.len()]);
            assert(has_field(b, f));
        }
    }
    }
}

/// A request's patch sets exactly the fields the request carries: the
/// patch has an entry for a field if and only if that field is present
/// in the request, so an update never touches an unrelated field.
pub proof fn lemma_patch_sets_exactly_present_fields(d: UpdateProgramDtoModel)
    ensures
        has_field(patch_entries(d), PatchField::Filename) == (d.filename is Some),
        has_field(patch_entries(d), PatchField::CodeUrl) == (d.code_url is Some),
        has_field(patch_entries(d), PatchField::ContentType) == (d.content_type is Some),
        has_field(patch_entries(d), PatchField::FileSize) == (d.file_size is Some),
        has_field(patch_entries(d), PatchField::InputType) == (d.input_type is Some),
        has_field(patch_entries(d), PatchField::OutputType) == (d.output_type is Some),
        has_field(patch_entries(d), PatchField::FilePath) == (d.file_path is Some),
{
    let s1 = match d.filename {
        Option::Some(v) => seq![PatchEntryModel::Filename(v)],
        Option::None => Seq::<PatchEntryModel>::empty(),
    };
    let s2 = match d.code_url {
        Option::Some(v) => seq![PatchEntryModel::CodeUrl(v)],
        Option::None => Seq::<PatchEntryModel>::empty(),
    };
    let s3 = match d.content_type {
        Option::Some(v) => seq![PatchEntryModel::ContentType(v)],
        Option::None => Seq::<PatchEntryModel>::empty(),
    };
    let s4 = match d.file_size {
        Option::Some(v) => seq![PatchEntryModel::FileSize(v)],
        Option::None => Seq::<PatchEntryModel>::empty(),
    };
    let s5 = match d.input_type {
        Option::Some(v) => seq![PatchEntryModel::InputType(v)],
        Option::None => Seq::<PatchEntryModel>::empty(),
    };
    let s6 = match d.output_type {
        Option::Some(v) => seq![PatchEntryModel::OutputType(v)],
        Option::None => Seq::<PatchEntryModel>::empty(),
    };
    let s7 = match d.file_path {
        Option::Some(v) => seq![PatchEntryModel::FilePath(v)],
        Option::None => Seq::<PatchEntryModel>::empty(),
    };
    assert(patch_entries(d) == s1 + s2 + s3 + s4 + s5 + s6 + s7);
    if let Option::Some(v) = d.filename {
        lemma_has_field_single(PatchEntryModel::Filename(v));
    }
    if let Option::Some(v) = d.code_url {
        lemma_has_field_single(PatchEntryModel::CodeUrl(v));
    }
    if let Option::Some(v) = d.content_type {
        lemma_has_field_single(PatchEntryModel::ContentType(v));
    }
    if let Option::Some(v) = d.file_size {
        lemma_has_field_single(PatchEntryModel::FileSize(v));
    }
    if let Option::Some(v) = d.input_type {
        lemma_has_field_single(PatchEntryModel::InputType(v));
    }
    if let Option::Some(v) = d.output_type {
        lemma_has_field_single(PatchEntryModel::OutputType(v));
    }
    if let Option::Some(v) = d.file_path {
        lemma_has_field_single(PatchEntryModel::FilePath(v));
    }
    lemma_has_field_concat(s1, s2);
    lemma_has_field_concat(s1 + s2, s3);
    lemma_has_field_concat(s1 + s2 + s3, s4);
    lemma_has_field_concat(s1 + s2 + s3 + s4, s5);
    lemma_has_field_concat(s1 + s2 + s3 + s4 + s5, s6);
    lemma_has_field_concat(s1 + s2 + s3 + s4 + s5 + s6, s7);
}

} // verus!
