use crtshmon::record::TypedRow;
use crtshmon::render::decimal;

fn sample(id: i64) -> TypedRow {
    TypedRow {
        issuer_name: "C=US, O=Let's Encrypt, CN=R3".to_string(),
        common_name: "example.com".to_string(),
        san: "example.com www.example.com".to_string(),
        certificate_id: id,
        not_after: "2021-04-01 00:00:00".to_string(),
        not_before: "2021-01-01 00:00:00".to_string(),
        sha256_fingerprint: "0f1e2d".to_string(),
    }
}

#[test]
fn decimal_matches_the_standard_form() {
    for n in [0i64, 7, 9, 10, 11, 99, 100, 101, 4096, 9506114, -1, -10, -907, i64::MAX, i64::MIN] {
        assert_eq!(decimal(n), n.to_string());
    }
}

#[test]
fn reference_link_holds_the_identifier() {
    assert_eq!(sample(9506114).reference_link(), "https://crt.sh/?id=9506114");
    assert_eq!(sample(0).reference_link(), "https://crt.sh/?id=0");
    assert_eq!(sample(-3).reference_link(), "https://crt.sh/?id=-3");
}

#[test]
fn alert_text_block() {
    let expected = "Found new certificate:\n\
Link: https://crt.sh/?id=42\n\
Issuer: C=US, O=Let's Encrypt, CN=R3\n\
CN: example.com\n\
SAN: example.com www.example.com\n\
NotAfter: 2021-04-01 00:00:00\n\
NotBefore: 2021-01-01 00:00:00\n\
Fingerprint: 0f1e2d\n";
    assert_eq!(sample(42).alert_text(), expected);
}

#[test]
fn clone_keeps_every_field() {
    let row = sample(5);
    assert_eq!(row.clone(), row);
}
