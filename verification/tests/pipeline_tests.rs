use flood_notify::data::{Credential, FileDetail, RunError, Secrets};
use flood_notify::pipeline::{Phase, Pipeline};
use flood_notify::registry::SeenFileRegistry;

fn secrets() -> Secrets {
    Secrets {
        tenant_id: String::from("tenant-1"),
        client_id: String::from("client-1"),
        client_secret: String::from("SECRET-REDACTED"),
        chat_id: String::from("chat-1"),
    }
}

fn credential(access: &str, refresh: &str) -> Credential {
    Credential {
        token_type: String::from("Bearer"),
        scope: String::from("chat.readwrite"),
        expires_in: 3599,
        ext_expires_in: 3599,
        access_token: String::from(access),
        refresh_token: String::from(refresh),
        id_token: String::from("id-token"),
    }
}

fn file(id: &str, subject: &str, link: &str) -> FileDetail {
    FileDetail { id: String::from(id), subject: String::from(subject), link_download: String::from(link) }
}

#[test]
fn a_missing_configuration_document_is_a_config_error() {
    let r = Pipeline::from_config(None, Some(credential("a", "r")), SeenFileRegistry::new());
    assert!(matches!(r, Err(RunError::Config)));
    let r = Pipeline::from_config(Some(secrets()), None, SeenFileRegistry::new());
    assert!(matches!(r, Err(RunError::Config)));
}

#[test]
fn a_complete_configuration_starts_a_run() {
    let p = Pipeline::from_config(
        Some(secrets()),
        Some(credential("a", "r")),
        SeenFileRegistry::new(),
    );
    match p {
        Ok(p) => assert_eq!(p.phase(), Phase::Fetching),
        Err(_) => panic!("a complete configuration must start the run"),
    }
}

#[test]
fn one_new_file_is_recorded_refreshed_once_and_notified() {
    let registry = SeenFileRegistry::new();
    let mut p = Pipeline::new(secrets(), credential("old-access", "old-refresh"), registry);
    assert_eq!(p.phase(), Phase::Fetching);

    p.on_listing(vec![file("10971", "Flood Notice A", "https://x/a.pdf")]);
    assert_eq!(p.phase(), Phase::Refreshing);
    assert_eq!(p.pending_len(), 1);
    assert_eq!(p.refreshes(), 0);

    let req = p.refresh_request();
    assert_eq!(req.url, "https://login.microsoftonline.com/tenant-1/oauth2/v2.0/token");
    assert_eq!(req.grant_type, "refresh_token");
    assert_eq!(req.client_id, "client-1");
    assert_eq!(req.refresh_token, "old-refresh");
    assert_eq!(req.scope, "chat.readwrite");

    p.on_refreshed(credential("new-access", "new-refresh"));
    assert_eq!(p.phase(), Phase::Notifying);
    assert_eq!(p.refreshes(), 1);
    assert_eq!(p.credential().access_token, "new-access");

    let m = p.next_notification();
    assert_eq!(m.card_subtitle, "Flood Notice A");
    assert_eq!(m.content_url, "https://x/a.pdf");
    assert_eq!(m.button_value, "https://x/a.pdf");

    p.on_notified();
    assert_eq!(p.phase(), Phase::Done);
    assert_eq!(p.refreshes(), 1);
    assert_eq!(p.exit_code(), 0);

    let registry = p.into_registry();
    assert!(registry.is_seen(10971));
}

#[test]
fn an_already_seen_listing_ends_idle_without_a_refresh() {
    let mut registry = SeenFileRegistry::new();
    assert!(registry.record(&file("10971", "Flood Notice A", "https://x/a.pdf")).is_ok());
    let rows_before = registry.len();

    let mut p = Pipeline::new(secrets(), credential("a", "r"), registry);
    p.on_listing(vec![file("10971", "Flood Notice A", "https://x/a.pdf")]);
    assert_eq!(p.phase(), Phase::Idle);
    assert_eq!(p.pending_len(), 0);
    assert_eq!(p.refreshes(), 0);
    assert_eq!(p.exit_code(), 0);

    let registry = p.into_registry();
    assert_eq!(registry.len(), rows_before);
}

#[test]
fn a_failed_refresh_aborts_but_the_new_id_stays_recorded() {
    let registry = SeenFileRegistry::new();
    let mut p = Pipeline::new(secrets(), credential("a", "r"), registry);
    p.on_listing(vec![file("10971", "Flood Notice A", "https://x/a.pdf")]);
    assert_eq!(p.phase(), Phase::Refreshing);

    p.on_refresh_failed();
    assert_eq!(p.phase(), Phase::Failed);
    assert_eq!(p.error(), Some(RunError::Auth));
    assert_eq!(p.refreshes(), 0);
    assert_ne!(p.exit_code(), 0);

    let registry = p.into_registry();
    assert!(registry.is_seen(10971));
}

#[test]
fn a_failed_fetch_aborts_with_the_transport_error() {
    let mut p = Pipeline::new(secrets(), credential("a", "r"), SeenFileRegistry::new());
    p.on_fetch_failed(false);
    assert_eq!(p.phase(), Phase::Failed);
    assert_eq!(p.error(), Some(RunError::RemoteFetch));
    assert_eq!(p.exit_code(), 1);
}

#[test]
fn a_malformed_envelope_aborts_with_the_parse_error() {
    let mut p = Pipeline::new(secrets(), credential("a", "r"), SeenFileRegistry::new());
    p.on_fetch_failed(true);
    assert_eq!(p.error(), Some(RunError::MalformedResponse));
    assert_eq!(p.exit_code(), 1);
}

#[test]
fn a_failed_notification_aborts_the_rest_of_the_run() {
    let registry = SeenFileRegistry::new();
    let mut p = Pipeline::new(secrets(), credential("a", "r"), registry);
    p.on_listing(vec![file("1", "A", "u1"), file("2", "B", "u2")]);
    p.on_refreshed(credential("n", "nr"));
    p.on_notified();
    assert_eq!(p.phase(), Phase::Notifying);
    p.on_notify_failed();
    assert_eq!(p.phase(), Phase::Failed);
    assert_eq!(p.error(), Some(RunError::Notify));
    assert_eq!(p.exit_code(), 1);

    let registry = p.into_registry();
    assert!(registry.is_seen(1));
    assert!(registry.is_seen(2));
}

#[test]
fn notifications_run_through_the_pending_set_in_reverse_fetch_order() {
    let mut p = Pipeline::new(secrets(), credential("a", "r"), SeenFileRegistry::new());
    p.on_listing(vec![file("1", "A", "u1"), file("2", "B", "u2"), file("3", "C", "u3")]);
    p.on_refreshed(credential("n", "nr"));

    let first = p.next_notification();
    assert_eq!(first.card_subtitle, "C");
    p.on_notified();
    let second = p.next_notification();
    assert_eq!(second.card_subtitle, "B");
    p.on_notified();
    let third = p.next_notification();
    assert_eq!(third.card_subtitle, "A");
    p.on_notified();
    assert_eq!(p.phase(), Phase::Done);
}

#[test]
fn a_run_against_an_unchanged_listing_repeats_idle() {
    let mut p = Pipeline::new(secrets(), credential("a", "r"), SeenFileRegistry::new());
    p.on_listing(vec![file("1", "A", "u1"), file("2", "B", "u2")]);
    p.on_refreshed(credential("n", "nr"));
    p.on_notified();
    p.on_notified();
    assert_eq!(p.phase(), Phase::Done);

    let registry = p.into_registry();
    let mut again = Pipeline::new(secrets(), credential("a", "r"), registry);
    again.on_listing(vec![file("1", "A", "u1"), file("2", "B", "u2")]);
    assert_eq!(again.phase(), Phase::Idle);
    assert_eq!(again.refreshes(), 0);
    assert_eq!(again.exit_code(), 0);
}
