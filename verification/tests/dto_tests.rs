use content_crafters::api_response::ApiResponse;
use content_crafters::models::ContentDetails;
use content_crafters::update_program_dto::{PatchEntry, UpdateProgramDto};

fn empty_dto() -> UpdateProgramDto {
    UpdateProgramDto {
        filename: None,
        code_url: None,
        content_type: None,
        file_size: None,
        input_type: None,
        output_type: None,
        file_path: None,
    }
}

#[test]
fn patch_with_only_filename_contains_exactly_filename() {
    let mut dto = empty_dto();
    dto.filename = Some(b"example.py".to_vec());
    let doc = dto.build_update_document();
    assert_eq!(doc.entries.len(), 1);
    match &doc.entries[0] {
        PatchEntry::Filename(v) => assert_eq!(v, &b"example.py".to_vec()),
        other => panic!("unexpected entry {:?}", other),
    }
}

#[test]
fn patch_of_an_empty_request_is_empty() {
    let doc = empty_dto().build_update_document();
    assert!(doc.entries.is_empty());
}

#[test]
fn patch_keeps_the_fixed_field_order() {
    let mut dto = empty_dto();
    dto.filename = Some(b"a.py".to_vec());
    dto.file_size = Some(1024);
    dto.file_path = Some(b"content%2F1%2Fa.py".to_vec());
    let doc = dto.build_update_document();
    assert_eq!(doc.entries.len(), 3);
    assert!(matches!(doc.entries[0], PatchEntry::Filename(_)));
    assert!(matches!(doc.entries[1], PatchEntry::FileSize(1024)));
    assert!(matches!(doc.entries[2], PatchEntry::FilePath(_)));
}

#[test]
fn api_response_keeps_its_parts() {
    let r = ApiResponse::new(
        "File uploaded and metadata saved".to_string(),
        Some("0123456789abcdef01234567".to_string()),
        Some("https://example.com/a.py".to_string()),
    );
    assert_eq!(r.message, "File uploaded and metadata saved");
    assert_eq!(r.id.as_deref(), Some("0123456789abcdef01234567"));
    assert_eq!(r.code_url.as_deref(), Some("https://example.com/a.py"));
}

#[test]
fn content_details_new_keeps_its_fields() {
    let d = ContentDetails::new(
        "1234abcd".to_string(),
        "Super Cool Program".to_string(),
        "This program transforms text files into HTML.".to_string(),
        "text/html".to_string(),
        "text/plain".to_string(),
        "John Doe".to_string(),
        vec!["utility".to_string(), "transformation".to_string()],
        "v1.2.0".to_string(),
    );
    assert_eq!(d.id, "1234abcd");
    assert_eq!(d.title, "Super Cool Program");
    assert_eq!(d.output_type, "text/html");
    assert_eq!(d.input_type, "text/plain");
    assert_eq!(d.author, "John Doe");
    assert_eq!(d.tags.len(), 2);
    assert_eq!(d.version, "v1.2.0");
}
