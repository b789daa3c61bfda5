use flood_notify::data::{FileDetail, RunError};
use flood_notify::registry::{SeenFileRecord, SeenFileRegistry};

fn file(id: &str, subject: &str, link: &str) -> FileDetail {
    FileDetail { id: String::from(id), subject: String::from(subject), link_download: String::from(link) }
}

#[test]
fn unseen_id_is_not_seen() {
    let reg = SeenFileRegistry::new();
    assert!(!reg.is_seen(10971));
    assert_eq!(reg.len(), 0);
}

#[test]
fn recording_makes_an_id_seen() {
    let mut reg = SeenFileRegistry::new();
    let r = reg.record(&file("10971", "Flood Notice A", "https://x/a.pdf"));
    assert!(r.is_ok());
    assert!(reg.is_seen(10971));
    assert!(!reg.is_seen(10972));
    assert_eq!(reg.len(), 1);
}

#[test]
fn a_recorded_row_keeps_the_subject_and_link() {
    let mut reg = SeenFileRegistry::new();
    assert!(reg.record(&file("10971", "Flood Notice A", "https://x/a.pdf")).is_ok());
    let row = reg.row(0);
    assert_eq!(row.id, 10971);
    assert_eq!(row.subject, "Flood Notice A");
    assert_eq!(row.link_download, "https://x/a.pdf");
}

#[test]
fn recording_a_seen_id_is_a_duplicate_key() {
    let mut reg = SeenFileRegistry::new();
    assert!(reg.record(&file("5", "a", "u")).is_ok());
    let r = reg.record(&file("5", "b", "v"));
    assert_eq!(r, Err(RunError::DuplicateKey));
    assert_eq!(reg.len(), 1);
}

#[test]
fn non_numeric_id_is_recorded_under_zero() {
    let mut reg = SeenFileRegistry::new();
    assert!(reg.record(&file("notice-a", "a", "u")).is_ok());
    assert!(reg.is_seen(0));
    let r = reg.record(&file("notice-b", "b", "v"));
    assert_eq!(r, Err(RunError::DuplicateKey));
}

#[test]
fn from_rows_accepts_distinct_ids() {
    let rows = vec![
        SeenFileRecord { id: 1, subject: String::from("a"), link_download: String::from("u") },
        SeenFileRecord { id: 2, subject: String::from("b"), link_download: String::from("v") },
    ];
    let reg = SeenFileRegistry::from_rows(rows).unwrap();
    assert!(reg.is_seen(1));
    assert!(reg.is_seen(2));
    assert!(!reg.is_seen(3));
}

#[test]
fn from_rows_refuses_a_repeated_id() {
    let rows = vec![
        SeenFileRecord { id: 1, subject: String::from("a"), link_download: String::from("u") },
        SeenFileRecord { id: 1, subject: String::from("b"), link_download: String::from("v") },
    ];
    match SeenFileRegistry::from_rows(rows) {
        Err(e) => assert_eq!(e, RunError::Storage),
        Ok(_) => panic!("a repeated id must be refused"),
    }
}

#[test]
fn from_rows_refuses_an_id_outside_the_key_space() {
    let rows = vec![
        SeenFileRecord { id: -1, subject: String::from("a"), link_download: String::from("u") },
    ];
    assert!(SeenFileRegistry::from_rows(rows).is_err());
}
