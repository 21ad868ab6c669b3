use crtshmon::engine::new_certificates;
use crtshmon::error::Error;
use crtshmon::record::{decode_rows, Cell, Column, RawRow, TypedRow};
use crtshmon::run::{Action, Phase, Run};
use crtshmon::state::State;

fn raw(id: &str, fingerprint: Option<&str>) -> RawRow {
    let mut cells = vec![
        Cell { column: "issuer_name".to_string(), value: Some("C=US, O=Example CA".to_string()) },
        Cell { column: "common_name".to_string(), value: Some("example.com".to_string()) },
        Cell { column: "sans".to_string(), value: Some("example.com www.example.com".to_string()) },
        Cell { column: "certificate_id".to_string(), value: Some(id.to_string()) },
        Cell { column: "not_before".to_string(), value: Some("2020-01-01".to_string()) },
        Cell { column: "not_after".to_string(), value: Some("2021-01-01".to_string()) },
    ];
    if let Some(f) = fingerprint {
        cells.push(Cell { column: "sha256_fingerprint".to_string(), value: Some(f.to_string()) });
    }
    RawRow { cells }
}

fn record(id: i64, fingerprint: &str) -> TypedRow {
    TypedRow {
        issuer_name: "C=US, O=Example CA".to_string(),
        common_name: "example.com".to_string(),
        san: "example.com www.example.com".to_string(),
        certificate_id: id,
        not_after: "2021-01-01".to_string(),
        not_before: "2020-01-01".to_string(),
        sha256_fingerprint: fingerprint.to_string(),
    }
}

fn fingerprints_of(rows: &[TypedRow]) -> Vec<String> {
    rows.iter().map(|r| r.sha256_fingerprint.clone()).collect()
}

#[test]
fn two_new_certificates_alert_in_row_order() {
    let mut run = Run::begin(State::new(), vec!["example.com".to_string()]);
    assert_eq!(run.next_action(), Action::Query { domain: "example.com".to_string() });
    let fresh = run.rows_received(&vec![raw("1", Some("aaa")), raw("2", Some("bbb"))]).unwrap();
    assert_eq!(fresh, vec![record(1, "aaa"), record(2, "bbb")]);
    assert_eq!(run.phase(), Phase::Persisting);
    assert_eq!(
        run.next_action(),
        Action::Persist { fingerprints: vec!["aaa".to_string(), "bbb".to_string()] }
    );
    run.persisted(true);
    assert_eq!(run.phase(), Phase::Finished);
    assert_eq!(run.next_action(), Action::Stop);
}

#[test]
fn persisted_order_is_sorted_whatever_the_row_order() {
    let mut run = Run::begin(State::new(), vec!["example.com".to_string()]);
    let fresh = run.rows_received(&vec![raw("2", Some("bbb")), raw("1", Some("aaa"))]).unwrap();
    assert_eq!(fingerprints_of(&fresh), vec!["bbb".to_string(), "aaa".to_string()]);
    assert_eq!(
        run.next_action(),
        Action::Persist { fingerprints: vec!["aaa".to_string(), "bbb".to_string()] }
    );
}

#[test]
fn known_fingerprint_is_skipped() {
    let state = State::from_fingerprints(vec!["aaa".to_string()]);
    let mut run = Run::begin(state, vec!["example.com".to_string()]);
    let fresh = run.rows_received(&vec![raw("1", Some("aaa")), raw("2", Some("bbb"))]).unwrap();
    assert_eq!(fresh, vec![record(2, "bbb")]);
    assert_eq!(run.state().fingerprints(), vec!["aaa".to_string(), "bbb".to_string()]);
}

#[test]
fn failed_query_aborts_without_persisting() {
    let mut run =
        Run::begin(State::new(), vec!["example.com".to_string(), "example.org".to_string()]);
    let fresh = run.rows_received(&vec![raw("1", Some("aaa"))]).unwrap();
    assert_eq!(fingerprints_of(&fresh), vec!["aaa".to_string()]);
    assert_eq!(run.next_action(), Action::Query { domain: "example.org".to_string() });
    let e = run.query_failed();
    assert_eq!(e, Error::QueryError { domain: "example.org".to_string() });
    assert_eq!(run.phase(), Phase::Aborted);
    assert_eq!(run.next_action(), Action::Stop);
    assert!(run.state().contains("aaa"));
}

#[test]
fn missing_fingerprint_column_aborts_the_batch() {
    let mut run = Run::begin(State::new(), vec!["example.com".to_string()]);
    let r = run.rows_received(&vec![raw("1", Some("aaa")), raw("2", None)]);
    assert_eq!(r, Err(Error::MissingField { column: Column::Sha256Fingerprint }));
    assert_eq!(Column::Sha256Fingerprint.name(), "sha256_fingerprint");
    assert_eq!(run.phase(), Phase::Aborted);
    assert_eq!(run.next_action(), Action::Stop);
    assert_eq!(run.state().len(), 0);
}

#[test]
fn second_run_alerts_on_nothing() {
    let rows = vec![raw("1", Some("aaa")), raw("2", Some("bbb")), raw("3", Some("aaa"))];
    let mut first = Run::begin(State::new(), vec!["example.com".to_string()]);
    assert_eq!(first.rows_received(&rows).unwrap().len(), 2);
    let persisted = match first.next_action() {
        Action::Persist { fingerprints } => fingerprints,
        other => panic!("unexpected action {:?}", other),
    };
    let mut second =
        Run::begin(State::from_fingerprints(persisted), vec!["example.com".to_string()]);
    assert_eq!(second.rows_received(&rows).unwrap(), vec![]);
    assert_eq!(second.state().fingerprints(), vec!["aaa".to_string(), "bbb".to_string()]);
}

#[test]
fn state_never_shrinks() {
    let mut state = State::from_fingerprints(vec!["ccc".to_string(), "aaa".to_string()]);
    let fresh = new_certificates(&mut state, &vec![record(1, "bbb"), record(2, "aaa")]);
    assert_eq!(fingerprints_of(&fresh), vec!["bbb".to_string()]);
    assert!(state.contains("aaa"));
    assert!(state.contains("bbb"));
    assert!(state.contains("ccc"));
    assert_eq!(state.len(), 3);
    let none = new_certificates(&mut state, &vec![]);
    assert!(none.is_empty());
    assert_eq!(state.len(), 3);
}

#[test]
fn same_fingerprint_alerts_once_within_a_batch() {
    let mut state = State::new();
    let fresh = new_certificates(
        &mut state,
        &vec![record(1, "aaa"), record(2, "aaa"), record(3, "bbb"), record(4, "aaa")],
    );
    assert_eq!(fresh, vec![record(1, "aaa"), record(3, "bbb")]);
}

#[test]
fn same_fingerprint_alerts_once_across_domains() {
    let mut run =
        Run::begin(State::new(), vec!["example.com".to_string(), "example.org".to_string()]);
    let first = run.rows_received(&vec![raw("1", Some("aaa"))]).unwrap();
    assert_eq!(first.len(), 1);
    assert_eq!(run.phase(), Phase::Querying);
    let second = run.rows_received(&vec![raw("1", Some("aaa")), raw("5", Some("ccc"))]).unwrap();
    assert_eq!(fingerprints_of(&second), vec!["ccc".to_string()]);
    assert_eq!(run.phase(), Phase::Persisting);
}

#[test]
fn run_without_domains_persists_at_once() {
    let mut run = Run::begin(State::from_fingerprints(vec!["aaa".to_string()]), vec![]);
    assert_eq!(run.phase(), Phase::Persisting);
    assert_eq!(run.next_action(), Action::Persist { fingerprints: vec!["aaa".to_string()] });
    run.persisted(false);
    assert_eq!(run.phase(), Phase::Aborted);
    assert_eq!(run.next_action(), Action::Stop);
}

#[test]
fn notify_failure_aborts_and_keeps_the_marking() {
    let mut run = Run::begin(State::new(), vec!["example.com".to_string()]);
    let fresh = run.rows_received(&vec![raw("1", Some("aaa"))]).unwrap();
    assert_eq!(fresh.len(), 1);
    assert_eq!(run.notify_failed(), Error::NotifyError);
    assert_eq!(run.phase(), Phase::Aborted);
    assert_eq!(run.next_action(), Action::Stop);
    assert!(run.state().contains("aaa"));
}

#[test]
fn failing_row_fails_the_batch() {
    let r = decode_rows(&vec![raw("1", Some("aaa")), raw("x1", Some("bbb")), raw("3", None)]);
    assert_eq!(
        r,
        Err(Error::InvalidFormat { column: Column::CertificateId, value: "x1".to_string() })
    );
    let ok = decode_rows(&vec![raw("1", Some("aaa")), raw("-3", Some("bbb"))]).unwrap();
    assert_eq!(ok, vec![record(1, "aaa"), record(-3, "bbb")]);
    assert_eq!(decode_rows(&vec![]), Ok(vec![]));
}
