use content_crafters::mock_db::{DocValue, Document, MockDb};

#[test]
fn test_run_command_with_valid_ping() {
    let db = MockDb {};
    let mut command = Document::new();
    command.insert("ping".as_bytes().to_vec(), DocValue::Text("1".to_string()));
    let result = db.run_command(&command);
    let mut expected = Document::new();
    expected.insert("ok".as_bytes().to_vec(), DocValue::Int(1));
    assert_eq!(result.unwrap(), expected);
}

#[test]
fn test_run_command_with_invalid_command() {
    let db = MockDb {};
    let mut command = Document::new();
    command.insert("select * from users".as_bytes().to_vec(), DocValue::Text("0".to_string()));
    let result = db.run_command(&command);
    assert!(result.is_err());
}

#[test]
fn test_init_method_success() {
    let result = MockDb::init();
    assert!(result.is_ok());
}
