//! The wire grammar of the service's answer.

use segmask::json::parse_details;

fn parsed(s: &str) -> Option<(Vec<u8>, Vec<u8>, Vec<u8>)> {
    parse_details(&s.as_bytes().to_vec())
}

#[test]
fn plain_document_parses() {
    let r = parsed("{\"file_name\":\"m.png\",\"file_type\":\"image/png\",\"data\":\"AAAA\"}");
    let (n, t, d) = r.expect("well-formed document");
    assert_eq!(n, b"m.png".to_vec());
    assert_eq!(t, b"image/png".to_vec());
    assert_eq!(d, b"AAAA".to_vec());
}

#[test]
fn member_order_does_not_matter() {
    let r = parsed("{\"data\":\"QQ==\",\"file_name\":\"n\",\"file_type\":\"t\"}");
    let (n, t, d) = r.expect("well-formed document");
    assert_eq!(n, b"n".to_vec());
    assert_eq!(t, b"t".to_vec());
    assert_eq!(d, b"QQ==".to_vec());
}

#[test]
fn whitespace_is_insignificant() {
    let r = parsed(
        " \t\r\n{ \"file_name\" : \"n\" ,\n \"file_type\" :\t\"t\" , \"data\" : \"AAAA\" }\n ",
    );
    assert!(r.is_some());
}

#[test]
fn escapes_are_unescaped() {
    let r = parsed("{\"file_name\":\"a\\\"b\\\\c\\/d\\n\",\"file_type\":\"t\",\"data\":\"AAAA\"}");
    let (n, _, _) = r.expect("well-formed document");
    assert_eq!(n, b"a\"b\\c/d\n".to_vec());
}

#[test]
fn unknown_escape_is_malformed() {
    assert!(parsed("{\"file_name\":\"a\\u0041\",\"file_type\":\"t\",\"data\":\"AAAA\"}").is_none());
}

#[test]
fn duplicate_member_is_malformed() {
    assert!(parsed("{\"data\":\"AAAA\",\"data\":\"AAAA\",\"file_name\":\"n\"}").is_none());
}

#[test]
fn missing_member_is_malformed() {
    assert!(parsed("{\"file_name\":\"n\",\"file_type\":\"t\",\"other\":\"x\"}").is_none());
}

#[test]
fn too_few_or_too_many_members_are_malformed() {
    assert!(parsed("{\"file_name\":\"n\",\"file_type\":\"t\"}").is_none());
    assert!(parsed(
        "{\"file_name\":\"n\",\"file_type\":\"t\",\"data\":\"AAAA\",\"extra\":\"x\"}"
    )
    .is_none());
}

#[test]
fn trailing_garbage_is_malformed() {
    assert!(parsed("{\"file_name\":\"n\",\"file_type\":\"t\",\"data\":\"AAAA\"}x").is_none());
}

#[test]
fn not_json_is_malformed() {
    assert!(parsed("not json at all").is_none());
    assert!(parsed("").is_none());
    assert!(parsed("[1,2,3]").is_none());
    assert!(parsed("{\"file_name\":5,\"file_type\":\"t\",\"data\":\"AAAA\"}").is_none());
}

#[test]
fn unterminated_string_is_malformed() {
    assert!(parsed("{\"file_name\":\"n").is_none());
}

#[test]
fn control_byte_in_string_is_malformed() {
    assert!(parsed("{\"file_name\":\"a\nb\",\"file_type\":\"t\",\"data\":\"AAAA\"}").is_none());
}
