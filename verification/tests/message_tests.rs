use flood_notify::data::{Credential, FileDetail, Secrets};
use flood_notify::message::{bearer_header, build_notification, chat_messages_url, compose_message};
use flood_notify::status::http_success;
use flood_notify::token::build_refresh_request;

fn file() -> FileDetail {
    FileDetail {
        id: String::from("10971"),
        subject: String::from("Flood Notice A"),
        link_download: String::from("https://x/a.pdf"),
    }
}

#[test]
fn the_body_embeds_exactly_the_attachment_reference() {
    let m = compose_message(&file(), String::from("abc-123"));
    assert_eq!(m.body_content, "<attachment id=\"abc-123\"></attachment>");
    assert_eq!(m.body_content_type, "html");
    assert_eq!(m.attachment_id, "abc-123");
}

#[test]
fn the_card_carries_the_file_fields() {
    let m = compose_message(&file(), String::from("x"));
    assert_eq!(m.attachment_content_type, "application/vnd.microsoft.card.thumbnail");
    assert_eq!(m.content_url, "https://x/a.pdf");
    assert_eq!(m.name, "Flood Notice A");
    assert_eq!(m.card_title, "[New] การประกาศเขตอุทกภัย");
    assert_eq!(m.card_subtitle, "Flood Notice A");
    assert_eq!(m.card_text, "Click the link below to download the file");
    assert_eq!(m.button_type, "openUrl");
    assert_eq!(m.button_title, "Download");
    assert_eq!(m.button_value, "https://x/a.pdf");
}

#[test]
fn a_built_notification_carries_a_generated_hyphenated_identifier() {
    let m = build_notification(&file());
    assert_eq!(m.attachment_id.chars().count(), 36);
    let bytes = m.attachment_id.as_bytes();
    assert_eq!(bytes[8], b'-');
    assert_eq!(bytes[13], b'-');
    assert_eq!(bytes[18], b'-');
    assert_eq!(bytes[23], b'-');
    assert_eq!(m.body_content, format!("<attachment id=\"{}\"></attachment>", m.attachment_id));
}

#[test]
fn two_built_notifications_do_not_share_an_identifier() {
    let a = build_notification(&file());
    let b = build_notification(&file());
    assert_ne!(a.attachment_id, b.attachment_id);
}

#[test]
fn the_chat_endpoint_and_bearer_header_are_built_from_their_parts() {
    assert_eq!(
        chat_messages_url("chat-1"),
        "https://graph.microsoft.com/v1.0/chats/chat-1/messages"
    );
    assert_eq!(bearer_header("tok"), "Bearer tok");
}

#[test]
fn only_the_2xx_class_counts_as_a_successful_response() {
    assert!(http_success(200));
    assert!(http_success(201));
    assert!(http_success(299));
    assert!(!http_success(199));
    assert!(!http_success(300));
    assert!(!http_success(401));
    assert!(!http_success(404));
    assert!(!http_success(500));
}

#[test]
fn the_refresh_request_is_built_from_secrets_and_credential() {
    let secrets = Secrets {
        tenant_id: String::from("tenant-9"),
        client_id: String::from("client-9"),
        client_secret: String::from("SECRET-REDACTED"),
        chat_id: String::from("chat-9"),
    };
    let credential = Credential {
        token_type: String::from("Bearer"),
        scope: String::from("files.read"),
        expires_in: 100,
        ext_expires_in: 100,
        access_token: String::from("at"),
        refresh_token: String::from("rt"),
        id_token: String::from("it"),
    };
    let r = build_refresh_request(&secrets, &credential);
    assert_eq!(r.url, "https://login.microsoftonline.com/tenant-9/oauth2/v2.0/token");
    assert_eq!(r.grant_type, "refresh_token");
    assert_eq!(r.client_id, "client-9");
    assert_eq!(r.client_secret, "SECRET-REDACTED");
    assert_eq!(r.refresh_token, "rt");
    assert_eq!(r.scope, "files.read");
}
