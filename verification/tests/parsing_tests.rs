use content_crafters::byteseq::{
    bytes_eq, i32_to_dec, i64_to_dec, split_extension, starts_with_ci, u64_to_dec, u64_to_hex_k,
};
use content_crafters::digest::content_digest;
use content_crafters::field_parser::{parse_id, parse_owner_id, IdField};
use content_crafters::group::build_group_path;
use content_crafters::hello::HelloWithName;
use content_crafters::ids::{parse_record_id, RecordId};
use content_crafters::store::build_access_url;

#[test]
fn split_extension_handles_the_edge_shapes() {
    let cases: [(&[u8], &[u8], &[u8]); 5] = [
        (b"report.txt", b"report", b"txt"),
        (b"noext", b"noext", b""),
        (b".bashrc", b"", b"bashrc"),
        (b"a.b.c", b"a.b", b"c"),
        (b"a.", b"a", b""),
    ];
    for (name, base, ext) in cases {
        let (b, e) = split_extension(name);
        assert_eq!(b, base.to_vec());
        assert_eq!(e, ext.to_vec());
    }
}

#[test]
fn case_insensitive_prefix_matches_ascii_case() {
    assert!(starts_with_ci(b"REPORT", b"report-1.txt"));
    assert!(starts_with_ci(b"report", b"RePoRt.txt"));
    assert!(!starts_with_ci(b"report", b"repo"));
    assert!(!starts_with_ci(b"reports", b"report.txt"));
    assert!(starts_with_ci(b"", b"anything"));
}

#[test]
fn decimal_rendering_matches_expected_digits() {
    assert_eq!(u64_to_dec(0), b"0".to_vec());
    assert_eq!(u64_to_dec(1234567890123), b"1234567890123".to_vec());
    assert_eq!(i64_to_dec(-5), b"-5".to_vec());
    assert_eq!(i64_to_dec(i64::MIN), b"-9223372036854775808".to_vec());
    assert_eq!(i32_to_dec(-42), b"-42".to_vec());
}

#[test]
fn hex_rendering_is_zero_padded_lower_case() {
    assert_eq!(u64_to_hex_k(0x1a2b, 8), b"00001a2b".to_vec());
    assert_eq!(u64_to_hex_k(0xffff, 4), b"ffff".to_vec());
}

#[test]
fn record_id_round_trips_through_hex() {
    let id = RecordId { hi: 0x0123456789ab, lo: 0xcdef01234567 };
    let hex = id.to_hex_bytes();
    assert_eq!(hex, b"0123456789abcdef01234567".to_vec());
    assert_eq!(parse_record_id(&hex), Some(id));
    // upper-case digits are accepted too
    assert_eq!(parse_record_id(b"0123456789ABCDEF01234567"), Some(id));
}

#[test]
fn record_id_parsing_rejects_malformed_text() {
    assert_eq!(parse_record_id(b"0123456789abcdef0123456"), None);
    assert_eq!(parse_record_id(b"0123456789abcdef012345678"), None);
    assert_eq!(parse_record_id(b"0123456789abcdef0123456z"), None);
    assert_eq!(parse_record_id(b""), None);
}

#[test]
fn content_digest_matches_known_values() {
    assert_eq!(content_digest(b"abc"), b"e71fa2190541574b".to_vec());
    assert_eq!(content_digest(b""), b"cbf29ce484222325".to_vec());
    assert_eq!(content_digest(&[7u8; 10]), b"ea3255b04d996c9b".to_vec());
}

#[test]
fn owner_id_parsing_accepts_signed_decimals() {
    assert_eq!(parse_owner_id(b"42"), Ok(42));
    assert_eq!(parse_owner_id(b"+7"), Ok(7));
    assert_eq!(parse_owner_id(b"-17"), Ok(-17));
    assert_eq!(parse_owner_id(b"2147483647"), Ok(2147483647));
    assert_eq!(parse_owner_id(b"-2147483648"), Ok(-2147483648));
    assert!(parse_owner_id(b"2147483648").is_err());
    assert!(parse_owner_id(b"-2147483649").is_err());
    assert!(parse_owner_id(b"").is_err());
    assert!(parse_owner_id(b"abc").is_err());
    assert!(parse_owner_id(b"1 2").is_err());
}

#[test]
fn message_id_field_tolerates_an_empty_value() {
    assert_eq!(parse_id(IdField::MessageId, b""), Ok(0));
    assert_eq!(parse_id(IdField::MessageId, b"9"), Ok(9));
    assert!(parse_id(IdField::GroupId, b"").is_err());
    assert_eq!(parse_id(IdField::GroupId, b"123"), Ok(123));
    assert_eq!(parse_id(IdField::OwnerId, b"-1"), Ok(-1));
}

#[test]
fn group_path_replaces_named_files_and_keeps_plain_names() {
    assert_eq!(build_group_path(b"avatar.png", 5, 7), b"group%2F7%2F5-7.png".to_vec());
    assert_eq!(build_group_path(b"avatar", 5, 7), b"group%2F7%2Favatar".to_vec());
    assert_eq!(build_group_path(b"avatar.", 5, 7), b"group%2F7%2F5-7".to_vec());
}

#[test]
fn access_urls_embed_bucket_and_path() {
    assert_eq!(
        build_access_url(b"bkt", b"content%2F1%2Fa.txt"),
        b"https://firebasestorage.googleapis.com/v0/b/bkt/o/content%2F1%2Fa.txt?alt=media".to_vec()
    );
}

#[test]
fn byte_equality_compares_contents() {
    assert!(bytes_eq(b"abc", b"abc"));
    assert!(!bytes_eq(b"abc", b"abd"));
    assert!(!bytes_eq(b"abc", b"ab"));
}

#[test]
fn greeting_wraps_the_name() {
    let hello = HelloWithName { name: "Mario".to_string() };
    assert_eq!(hello.greeting(), b"Hello, Mario!".to_vec());
}
