use crtshmon::error::Error;
use crtshmon::record::Column;
use crtshmon::state::State;
use crtshmon::store::{after_save_step, first_save_step, load, SaveStep, Stored};
use crtshmon::text::{compare_text, Rank};

#[test]
fn missing_state_file_is_an_empty_state() {
    let state = load("/var/lib/crtshmon/crtshmon.json", Stored::Missing).unwrap();
    assert_eq!(state.len(), 0);
    assert_eq!(state.fingerprints(), Vec::<String>::new());
}

#[test]
fn malformed_state_file_is_corrupt() {
    let r = load("dir/crtshmon.json", Stored::Malformed);
    assert_eq!(r.err(), Some(Error::StateCorrupt { path: "dir/crtshmon.json".to_string() }));
}

#[test]
fn unreadable_state_file_is_an_io_error() {
    let r = load("dir/crtshmon.json", Stored::Unreadable);
    assert_eq!(r.err(), Some(Error::StateIoError { path: "dir/crtshmon.json".to_string() }));
}

#[test]
fn stored_fingerprints_are_loaded() {
    let found = vec!["bbb".to_string(), "aaa".to_string(), "bbb".to_string()];
    let state = load("crtshmon.json", Stored::Fingerprints(found)).unwrap();
    assert_eq!(state.fingerprints(), vec!["aaa".to_string(), "bbb".to_string()]);
    assert!(state.contains("aaa"));
    assert!(!state.contains("ccc"));
}

#[test]
fn insert_reports_new_once() {
    let mut state = State::new();
    assert!(state.insert("bbb".to_string()));
    assert!(state.insert("aaa".to_string()));
    assert!(!state.insert("bbb".to_string()));
    assert!(state.insert("ab".to_string()));
    assert!(state.insert("".to_string()));
    assert_eq!(
        state.fingerprints(),
        vec!["".to_string(), "aaa".to_string(), "ab".to_string(), "bbb".to_string()]
    );
    assert_eq!(state.len(), 4);
}

#[test]
fn written_order_is_the_order_of_strings() {
    let mut given = vec!["z", "é", "a", "aa", "A", "0f", "b", "€", "ab"];
    let state = State::from_fingerprints(given.iter().map(|s| s.to_string()).collect());
    given.sort();
    assert_eq!(state.fingerprints(), given.iter().map(|s| s.to_string()).collect::<Vec<_>>());
}

#[test]
fn compare_text_cases() {
    assert_eq!(compare_text("", ""), Rank::Same);
    assert_eq!(compare_text("", "a"), Rank::Before);
    assert_eq!(compare_text("a", ""), Rank::After);
    assert_eq!(compare_text("abc", "abd"), Rank::Before);
    assert_eq!(compare_text("abd", "abc"), Rank::After);
    assert_eq!(compare_text("abc", "abc"), Rank::Same);
    assert_eq!(compare_text("ab", "abc"), Rank::Before);
    assert_eq!(compare_text("b", "abc"), Rank::After);
}

#[test]
fn save_steps_in_order() {
    let first = first_save_step();
    assert_eq!(first, SaveStep::CreateTemp);
    assert_eq!(after_save_step(first, true, "s.json", "s.tmp"), Ok(Some(SaveStep::WriteTemp)));
    assert_eq!(
        after_save_step(SaveStep::WriteTemp, true, "s.json", "s.tmp"),
        Ok(Some(SaveStep::SyncTemp))
    );
    assert_eq!(
        after_save_step(SaveStep::SyncTemp, true, "s.json", "s.tmp"),
        Ok(Some(SaveStep::Rename))
    );
    assert_eq!(after_save_step(SaveStep::Rename, true, "s.json", "s.tmp"), Ok(None));
}

#[test]
fn failed_save_step_names_the_file() {
    for step in [SaveStep::CreateTemp, SaveStep::WriteTemp, SaveStep::SyncTemp] {
        assert_eq!(
            after_save_step(step, false, "s.json", "s.tmp"),
            Err(Error::StateIoError { path: "s.tmp".to_string() })
        );
    }
    assert_eq!(
        after_save_step(SaveStep::Rename, false, "s.json", "s.tmp"),
        Err(Error::StateIoError { path: "s.json".to_string() })
    );
}

#[test]
fn error_messages_name_their_subject() {
    assert_eq!(
        Error::StateCorrupt { path: "d/crtshmon.json".to_string() }.message(),
        "Error deserializing state file at d/crtshmon.json"
    );
    assert_eq!(
        Error::StateIoError { path: "d/crtshmon.tmp".to_string() }.message(),
        "Error accessing state file at d/crtshmon.tmp"
    );
    assert_eq!(
        Error::QueryError { domain: "example.org".to_string() }.message(),
        "Error querying domain example.org"
    );
    assert_eq!(
        Error::MissingField { column: Column::Sha256Fingerprint }.message(),
        "sha256_fingerprint was None"
    );
    assert_eq!(
        Error::InvalidFormat { column: Column::CertificateId, value: "x".to_string() }.message(),
        "certificate_id is not an integer: x"
    );
    assert_eq!(Error::NotifyError.message(), "Error logging certificate");
}

#[test]
fn lookup_in_a_larger_state() {
    let mut state = State::default();
    assert!(state.is_empty());
    for i in (0..200).rev() {
        assert!(state.insert(format!("{:04x}", i * 7)));
    }
    assert!(!state.is_empty());
    assert_eq!(state.len(), 200);
    for i in 0..200 {
        assert!(state.contains(&format!("{:04x}", i * 7)));
        assert!(!state.contains(&format!("{:04x}", i * 7 + 1)));
        assert!(!state.insert(format!("{:04x}", i * 7)));
    }
    let listed = state.fingerprints();
    let mut sorted = listed.clone();
    sorted.sort();
    sorted.dedup();
    assert_eq!(listed, sorted);
    assert_eq!(listed.len(), 200);
}
