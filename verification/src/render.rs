//! The human-readable text of an alert.

use vstd::prelude::*;
use vstd::string::*;
use crate::record::{TypedRow, TypedRowView};

verus! {

/// The character of a decimal digit.
pub open spec fn digit_char(d: int) -> char {
    if d == 0 {
        '0'
    } else if d == 1 {
        '1'
    } else if d == 2 {
        '2'
    } else if d == 3 {
        '3'
    } else if d == 4 {
        '4'
    } else if d == 5 {
        '5'
    } else if d == 6 {
        '6'
    } else if d == 7 {
        '7'
    } else if d == 8 {
        '8'
    } else {
        '9'
    }
}

/// A natural number in decimal, without leading zeros.
pub open spec fn decimal_of_nat(n: nat) -> Seq<char>
    decreases n,
{
    if n < 10 {
        seq![digit_char(n as int)]
    } else {
        decimal_of_nat(n / 10).push(digit_char((n % 10) as int))
    }
}

/// An integer in decimal, with a minus sign where it is negative.
pub open spec fn decimal_text(n: int) -> Seq<char> {
    if n < 0 {
        seq!['-'] + decimal_of_nat((-n) as nat)
    } else {
        decimal_of_nat(n as nat)
    }
}

/// The link under which the log shows the certificate of that identifier.
pub open spec fn reference_link_spec(certificate_id: i64) -> Seq<char> {
    "https://crt.sh/?id="@ + decimal_text(certificate_id as int)
}

/// The text of an alert: a heading, the link, and one line per field.
pub open spec fn alert_text_spec(row: TypedRowView) -> Seq<char> {
    "Found new certificate:\nLink: "@ + reference_link_spec(row.certificate_id) + "\nIssuer: "@
        + row.issuer_name + "\nCN: "@ + row.common_name + "\nSAN: "@ + row.san + "\nNotAfter: "@
        + row.not_after + "\nNotBefore: "@ + row.not_before + "\nFingerprint: "@
        + row.sha256_fingerprint + "\n"@
}

fn digit_str(d: u64) -> (r: &'static str)
    requires
        d < 10,
    ensures
        r@ == seq![digit_char(d as int)],
{
    proof {
        reveal_strlit("0");
        reveal_strlit("1");
        reveal_strlit("2");
        reveal_strlit("3");
        reveal_strlit("4");
        reveal_strlit("5");
        reveal_strlit("6");
        reveal_strlit("7");
        reveal_strlit("8");
        reveal_strlit("9");
    }
    let r = if d == 0 {
        "0"
    } else if d == 1 {
        "1"
    } else if d == 2 {
        "2"
    } else if d == 3 {
        "3"
    } else if d == 4 {
        "4"
    } else if d == 5 {
        "5"
    } else if d == 6 {
        "6"
    } else if d == 7 {
        "7"
    } else if d == 8 {
        "8"
    } else {
        "9"
    };
    proof {
        assert(r@ =~= seq![digit_char(d as int)]);
    }
    r
}

fn decimal_of(n: u64) -> (r: String)
    ensures
        r@ == decimal_of_nat(n as nat),
    decreases n,
{
    if n < 10 {
        digit_str(n).to_owned()
    } else {
        let mut r = decimal_of(n / 10);
        let ghost front = r@;
        r.append(digit_str(n % 10));
        proof {
            assert(r@ =~= front.push(digit_char((n % 10) as int)));
        }
        r
    }
}

/// Writes an integer in decimal.
pub fn decimal(n: i64) -> (r: String)
    ensures
        r@ == decimal_text(n as int),
{
    if n < 0 {
        let magnitude: u64 = ((-(n + 1)) as u64) + 1;
        proof {
            reveal_strlit("-");
            assert("-"@ =~= seq!['-']);
        }
        let mut r = "-".to_owned();
        let digits = decimal_of(magnitude);
        r.append(digits.as_str());
        r
    } else {
        decimal_of(n as u64)
    }
}

impl TypedRow {
    /// The link under which the log shows this certificate.
    pub fn reference_link(&self) -> (r: String)
        ensures
            r@ == reference_link_spec(self.certificate_id),
    {
        let mut r = "https://crt.sh/?id=".to_owned();
        let id = decimal(self.certificate_id);
        r.append(id.as_str());
        r
    }

    /// The human-readable text of the alert on this certificate.
    pub fn alert_text(&self) -> (r: String)
        ensures
            r@ == alert_text_spec(self@),
    {
        let mut r = "Found new certificate:\nLink: ".to_owned();
        let link = self.reference_link();
        r.append(link.as_str());
        r.append("\nIssuer: ");
        r.append(self.issuer_name.as_str());
        r.append("\nCN: ");
        r.append(self.common_name.as_str());
        r.append("\nSAN: ");
        r.append(self.san.as_str());
        r.append("\nNotAfter: ");
        r.append(self.not_after.as_str());
        r.append("\nNotBefore: ");
        r.append(self.not_before.as_str());
        r.append("\nFingerprint: ");
        r.append(self.sha256_fingerprint.as_str());
        r.append("\n");
        r
    }
}

} // verus!
