use flood_notify::data::RunError;
use flood_notify::jsonio::{parse_credential, parse_listing};

#[test]
fn a_wellformed_listing_envelope_parses() {
    let body = r#"{"data":{"file_list":[
        {"ID":"10971","Subject":"Flood Notice A","LinkDownload":"https://x/a.pdf"},
        {"ID":"10972","Subject":"Flood Notice B","LinkDownload":"https://x/b.pdf"}
    ]}}"#;
    let listing = parse_listing(body).unwrap();
    assert_eq!(listing.len(), 2);
    assert_eq!(listing[0].id, "10971");
    assert_eq!(listing[0].subject, "Flood Notice A");
    assert_eq!(listing[0].link_download, "https://x/a.pdf");
    assert_eq!(listing[1].id, "10972");
}

#[test]
fn an_empty_file_list_parses_to_no_entries() {
    let listing = parse_listing(r#"{"data":{"file_list":[]}}"#).unwrap();
    assert_eq!(listing.len(), 0);
}

#[test]
fn a_body_that_is_not_json_is_malformed() {
    assert_eq!(parse_listing("not json").err(), Some(RunError::MalformedResponse));
}

#[test]
fn a_missing_data_member_is_malformed() {
    assert_eq!(parse_listing(r#"{"file_list":[]}"#).err(), Some(RunError::MalformedResponse));
}

#[test]
fn a_missing_file_list_member_is_malformed() {
    assert_eq!(parse_listing(r#"{"data":{}}"#).err(), Some(RunError::MalformedResponse));
}

#[test]
fn a_non_array_file_list_is_malformed() {
    assert_eq!(parse_listing(r#"{"data":{"file_list":5}}"#).err(), Some(RunError::MalformedResponse));
}

#[test]
fn an_entry_missing_a_field_is_malformed() {
    let body = r#"{"data":{"file_list":[{"ID":"1","LinkDownload":"u"}]}}"#;
    assert_eq!(parse_listing(body).err(), Some(RunError::MalformedResponse));
}

#[test]
fn an_entry_with_a_non_string_field_is_malformed() {
    let body = r#"{"data":{"file_list":[{"ID":1,"Subject":"s","LinkDownload":"u"}]}}"#;
    assert_eq!(parse_listing(body).err(), Some(RunError::MalformedResponse));
}

#[test]
fn a_wellformed_credential_body_parses() {
    let body = r#"{"token_type":"Bearer","scope":"chat.readwrite","expires_in":3599,
        "ext_expires_in":3599,"access_token":"at","refresh_token":"rt","id_token":"it"}"#;
    let c = parse_credential(body).unwrap();
    assert_eq!(c.token_type, "Bearer");
    assert_eq!(c.scope, "chat.readwrite");
    assert_eq!(c.expires_in, 3599);
    assert_eq!(c.ext_expires_in, 3599);
    assert_eq!(c.access_token, "at");
    assert_eq!(c.refresh_token, "rt");
    assert_eq!(c.id_token, "it");
}

#[test]
fn an_error_response_body_is_an_auth_failure() {
    let body = r#"{"error":"invalid_grant","error_description":"expired"}"#;
    assert_eq!(parse_credential(body).err(), Some(RunError::Auth));
}

#[test]
fn a_credential_body_that_is_not_json_is_an_auth_failure() {
    assert_eq!(parse_credential("<html>502</html>").err(), Some(RunError::Auth));
}

#[test]
fn an_expiry_outside_32_bits_is_an_auth_failure() {
    let body = r#"{"token_type":"Bearer","scope":"s","expires_in":4294967296,
        "ext_expires_in":1,"access_token":"a","refresh_token":"r","id_token":"i"}"#;
    assert_eq!(parse_credential(body).err(), Some(RunError::Auth));
}
