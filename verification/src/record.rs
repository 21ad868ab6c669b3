//! Result rows and the certificate records decoded from them.

use vstd::prelude::*;
use vstd::string::*;
use crate::error::{Error, ErrorView};
use crate::text::{compare_text, Rank};

verus! {

/// The columns that every result row must hold, in the order in which a row
/// is decoded.
#[derive(Clone, Copy, Debug, PartialEq, Eq, Structural)]
pub enum Column {
    IssuerName,
    CommonName,
    Sans,
    CertificateId,
    NotBefore,
    NotAfter,
    Sha256Fingerprint,
}

impl Column {
    /// The column's name in a result row.
    pub open spec fn name_spec(self) -> Seq<char> {
        match self {
            Column::IssuerName => "issuer_name"@,
            Column::CommonName => "common_name"@,
            Column::Sans => "sans"@,
            Column::CertificateId => "certificate_id"@,
            Column::NotBefore => "not_before"@,
            Column::NotAfter => "not_after"@,
            Column::Sha256Fingerprint => "sha256_fingerprint"@,
        }
    }

    /// The column's name in a result row.
    pub fn name(self) -> (s: &'static str)
        ensures
            s@ == self.name_spec(),
    {
        match self {
            Column::IssuerName => "issuer_name",
            Column::CommonName => "common_name",
            Column::Sans => "sans",
            Column::CertificateId => "certificate_id",
            Column::NotBefore => "not_before",
            Column::NotAfter => "not_after",
            Column::Sha256Fingerprint => "sha256_fingerprint",
        }
    }
}

/// One column of a result row: its name and its value, if it has one.
#[derive(Debug, PartialEq, Eq)]
pub struct Cell {
    pub column: String,
    pub value: Option<String>,
}

/// One row as the query returned it: a mapping from column name to optional
/// text, in the order of the columns.
#[derive(Debug, PartialEq, Eq)]
pub struct RawRow {
    pub cells: Vec<Cell>,
}

/// The text of an optional string.
pub open spec fn text_of(value: Option<String>) -> Option<Seq<char>> {
    match value {
        Some(s) => Some(s@),
        None => None,
    }
}

impl View for RawRow {
    type V = Seq<(Seq<char>, Option<Seq<char>>)>;

    open spec fn view(&self) -> Seq<(Seq<char>, Option<Seq<char>>)> {
        Seq::new(self.cells@.len(), |i: int| (self.cells@[i].column@, text_of(self.cells@[i].value)))
    }
}

/// The value of the first cell at or after `i` that is named `name`; `None`
/// where there is no such cell or it holds no value.
pub open spec fn lookup_from(
    cells: Seq<(Seq<char>, Option<Seq<char>>)>,
    name: Seq<char>,
    i: int,
) -> Option<Seq<char>>
    decreases cells.len() - i,
{
    if i >= cells.len() {
        None
    } else if cells[i].0 == name {
        cells[i].1
    } else {
        lookup_from(cells, name, i + 1)
    }
}

/// The value that a row holds in the column `name`.
pub open spec fn lookup(cells: Seq<(Seq<char>, Option<Seq<char>>)>, name: Seq<char>) -> Option<
    Seq<char>,
> {
    lookup_from(cells, name, 0)
}

impl RawRow {
    /// The value in the column `name`: that of the first cell of that name.
    pub fn get(&self, name: &str) -> (r: Option<String>)
        ensures
            text_of(r) == lookup(self@, name@),
    {
        let n: usize = self.cells.len();
        let mut i: usize = 0;
        while i < n
            invariant
                i <= n,
                n == self.cells.len(),
                lookup(self@, name@) == lookup_from(self@, name@, i as int),
            decreases n - i,
        {
            let cell = &self.cells[i];
            if compare_text(cell.column.as_str(), name) == Rank::Same {
                return match &cell.value {
                    Some(v) => Some(v.clone()),
                    None => None,
                };
            }
            i += 1;
        }
        None
    }
}

/// One certificate as the log reports it.
#[derive(Debug, PartialEq, Eq)]
pub struct TypedRow {
    pub issuer_name: String,
    pub common_name: String,
    pub san: String,
    pub certificate_id: i64,
    pub not_after: String,
    pub not_before: String,
    pub sha256_fingerprint: String,
}

/// A `TypedRow` as a mathematical value.
pub struct TypedRowView {
    pub issuer_name: Seq<char>,
    pub common_name: Seq<char>,
    pub san: Seq<char>,
    pub certificate_id: i64,
    pub not_after: Seq<char>,
    pub not_before: Seq<char>,
    pub sha256_fingerprint: Seq<char>,
}

impl View for TypedRow {
    type V = TypedRowView;

    open spec fn view(&self) -> TypedRowView {
        TypedRowView {
            issuer_name: self.issuer_name@,
            common_name: self.common_name@,
            san: self.san@,
            certificate_id: self.certificate_id,
            not_after: self.not_after@,
            not_before: self.not_before@,
            sha256_fingerprint: self.sha256_fingerprint@,
        }
    }
}

/// The views of a sequence of records, position by position.
pub open spec fn records(rows: Seq<TypedRow>) -> Seq<TypedRowView> {
    Seq::new(rows.len(), |i: int| rows[i]@)
}

/// The result of a `Result` as a mathematical value.
pub open spec fn outcome(r: Result<TypedRow, Error>) -> Result<TypedRowView, ErrorView> {
    match r {
        Ok(row) => Ok(row@),
        Err(e) => Err(e@),
    }
}

/// Whether a character is an ASCII decimal digit.
pub open spec fn is_digit(c: char) -> bool {
    48 <= c as u32 <= 57
}

/// The number that a text of decimal digits denotes.
pub open spec fn digits_value(digits: Seq<char>) -> int
    decreases digits.len(),
{
    if digits.len() == 0 {
        0
    } else {
        10 * digits_value(digits.drop_last()) + (digits.last() as u32 - 48)
    }
}

/// The integer that a text denotes: an optional sign, `+` or `-`, then one
/// or more decimal digits and nothing else, of a value that fits. `None`
/// for every other text.
pub open spec fn parsed_i64(text: Seq<char>) -> Option<i64> {
    let signed = text.len() > 0 && (text[0] == '-' || text[0] == '+');
    let digits = if signed {
        text.skip(1)
    } else {
        text
    };
    let value = if text.len() > 0 && text[0] == '-' {
        -digits_value(digits)
    } else {
        digits_value(digits)
    };
    if digits.len() > 0 && (forall|i: int| 0 <= i < digits.len() ==> is_digit(#[trigger] digits[i]))
        && i64::MIN <= value <= i64::MAX {
        Some(value as i64)
    } else {
        None
    }
}

/// Calls `str::parse::<i64>` of the standard library, which accepts an
/// optional sign followed by decimal digits only and fails on an empty
/// text, on any other character and on a value outside the type's range.
/// The contract states that reading; it is not proved here.
#[verifier::external_body]
fn parse_i64(text: &str) -> (r: Option<i64>)
    ensures
        r == parsed_i64(text@),
{
    text.parse::<i64>().ok()
}

/// The value that a row holds in a required column.
pub open spec fn field(cells: Seq<(Seq<char>, Option<Seq<char>>)>, column: Column) -> Option<
    Seq<char>,
> {
    lookup(cells, column.name_spec())
}

/// The record that a row decodes to, given what its certificate identifier
/// parses to. A row is decoded column by column and the first failure is
/// the result: a column without a value, or an identifier that is no
/// integer.
pub open spec fn assemble_spec(
    cells: Seq<(Seq<char>, Option<Seq<char>>)>,
    id: Option<i64>,
) -> Result<TypedRowView, ErrorView> {
    if field(cells, Column::IssuerName) is None {
        Err(ErrorView::MissingField { column: Column::IssuerName })
    } else if field(cells, Column::CommonName) is None {
        Err(ErrorView::MissingField { column: Column::CommonName })
    } else if field(cells, Column::Sans) is None {
        Err(ErrorView::MissingField { column: Column::Sans })
    } else if field(cells, Column::CertificateId) is None {
        Err(ErrorView::MissingField { column: Column::CertificateId })
    } else if id is None {
        Err(
            ErrorView::InvalidFormat {
                column: Column::CertificateId,
                value: field(cells, Column::CertificateId)->0,
            },
        )
    } else if field(cells, Column::NotBefore) is None {
        Err(ErrorView::MissingField { column: Column::NotBefore })
    } else if field(cells, Column::NotAfter) is None {
        Err(ErrorView::MissingField { column: Column::NotAfter })
    } else if field(cells, Column::Sha256Fingerprint) is None {
        Err(ErrorView::MissingField { column: Column::Sha256Fingerprint })
    } else {
        Ok(
            TypedRowView {
                issuer_name: field(cells, Column::IssuerName)->0,
                common_name: field(cells, Column::CommonName)->0,
                san: field(cells, Column::Sans)->0,
                certificate_id: id->0,
                not_after: field(cells, Column::NotAfter)->0,
                not_before: field(cells, Column::NotBefore)->0,
                sha256_fingerprint: field(cells, Column::Sha256Fingerprint)->0,
            },
        )
    }
}

/// What a row decodes to.
pub open spec fn decode_spec(cells: Seq<(Seq<char>, Option<Seq<char>>)>) -> Result<
    TypedRowView,
    ErrorView,
> {
    let id = match field(cells, Column::CertificateId) {
        Some(text) => parsed_i64(text),
        None => None,
    };
    assemble_spec(cells, id)
}

impl Clone for TypedRow {
    fn clone(&self) -> (r: TypedRow)
        ensures
            r@ == self@,
    {
        TypedRow {
            issuer_name: self.issuer_name.clone(),
            common_name: self.common_name.clone(),
            san: self.san.clone(),
            certificate_id: self.certificate_id,
            not_after: self.not_after.clone(),
            not_before: self.not_before.clone(),
            sha256_fingerprint: self.sha256_fingerprint.clone(),
        }
    }
}

impl TypedRow {
    /// The tag that accompanies every alert.
    pub fn message() -> (m: &'static str)
        ensures
            m@ == "Found new certificate"@,
    {
        "Found new certificate"
    }

    /// Builds the record of a row from its columns and from what its
    /// certificate identifier parsed to (`None`: to no integer).
    pub fn assemble(row: &RawRow, id: Option<i64>) -> (r: Result<TypedRow, Error>)
        ensures
            outcome(r) == assemble_spec(row@, id),
    {
        let issuer_name = match row.get(Column::IssuerName.name()) {
            Some(v) => v,
            None => {
                return Err(Error::MissingField { column: Column::IssuerName });
            },
        };
        let common_name = match row.get(Column::CommonName.name()) {
            Some(v) => v,
            None => {
                return Err(Error::MissingField { column: Column::CommonName });
            },
        };
        let san = match row.get(Column::Sans.name()) {
            Some(v) => v,
            None => {
                return Err(Error::MissingField { column: Column::Sans });
            },
        };
        let id_text = match row.get(Column::CertificateId.name()) {
            Some(v) => v,
            None => {
                return Err(Error::MissingField { column: Column::CertificateId });
            },
        };
        let certificate_id: i64 = match id {
            Some(n) => n,
            None => {
                return Err(Error::InvalidFormat { column: Column::CertificateId, value: id_text });
            },
        };
        let not_before = match row.get(Column::NotBefore.name()) {
            Some(v) => v,
            None => {
                return Err(Error::MissingField { column: Column::NotBefore });
            },
        };
        let not_after = match row.get(Column::NotAfter.name()) {
            Some(v) => v,
            None => {
                return Err(Error::MissingField { column: Column::NotAfter });
            },
        };
        let sha256_fingerprint = match row.get(Column::Sha256Fingerprint.name()) {
            Some(v) => v,
            None => {
                return Err(Error::MissingField { column: Column::Sha256Fingerprint });
            },
        };
        Ok(
            TypedRow {
                issuer_name,
                common_name,
                san,
                certificate_id,
                not_after,
                not_before,
                sha256_fingerprint,
            },
        )
    }

    /// Decodes one result row. All seven columns are required and none is
    /// defaulted; the certificate identifier must be an integer.
    pub fn decode(row: &RawRow) -> (r: Result<TypedRow, Error>)
        ensures
            outcome(r) == decode_spec(row@),
    {
        let id = match row.get(Column::CertificateId.name()) {
            Some(text) => parse_i64(text.as_str()),
            None => None,
        };
        TypedRow::assemble(row, id)
    }
}

/// The views of a sequence of rows, position by position.
pub open spec fn raw_rows(rows: Seq<RawRow>) -> Seq<Seq<(Seq<char>, Option<Seq<char>>)>> {
    Seq::new(rows.len(), |i: int| rows[i]@)
}

/// What a batch of rows decodes to: the records of all of them in order, or
/// the failure of the first row that does not decode.
pub open spec fn decode_rows_spec(rows: Seq<Seq<(Seq<char>, Option<Seq<char>>)>>) -> Result<
    Seq<TypedRowView>,
    ErrorView,
>
    decreases rows.len(),
{
    if rows.len() == 0 {
        Ok(Seq::empty())
    } else {
        match decode_rows_spec(rows.drop_last()) {
            Err(e) => Err(e),
            Ok(earlier) => match decode_spec(rows.last()) {
                Err(e) => Err(e),
                Ok(record) => Ok(earlier.push(record)),
            },
        }
    }
}

/// The result of decoding a batch as a mathematical value.
pub open spec fn batch_outcome(r: Result<Vec<TypedRow>, Error>) -> Result<
    Seq<TypedRowView>,
    ErrorView,
> {
    match r {
        Ok(rows) => Ok(records(rows@)),
        Err(e) => Err(e@),
    }
}

/// Decodes the rows that one query returned, in the order returned. A row
/// that does not decode fails the whole batch: no record of it is handed
/// out.
pub fn decode_rows(rows: &Vec<RawRow>) -> (r: Result<Vec<TypedRow>, Error>)
    ensures
        batch_outcome(r) == decode_rows_spec(raw_rows(rows@)),
{
    let mut out: Vec<TypedRow> = Vec::new();
    let n: usize = rows.len();
    let mut i: usize = 0;
    proof {
        assert(raw_rows(rows@).take(0).len() == 0);
        assert(records(out@) =~= Seq::<TypedRowView>::empty());
    }
    while i < n
        invariant
            i <= n,
            n == rows.len(),
            decode_rows_spec(raw_rows(rows@).take(i as int)) == Ok::<Seq<TypedRowView>, ErrorView>(
                records(out@),
            ),
        decreases n - i,
    {
        let ghost prior = out@;
        proof {
            assert(raw_rows(rows@).take(i + 1).drop_last() =~= raw_rows(rows@).take(i as int));
            assert(raw_rows(rows@).take(i + 1).last() == rows@[i as int]@);
        }
        match TypedRow::decode(&rows[i]) {
            Ok(record) => {
                out.push(record);
                proof {
                    assert(records(out@) =~= records(prior).push(record@));
                }
            },
            Err(e) => {
                proof {
                    lemma_failure_stays(raw_rows(rows@), i + 1, e@);
                }
                return Err(e);
            },
        }
        i += 1;
    }
    proof {
        assert(raw_rows(rows@).take(n as int) =~= raw_rows(rows@));
    }
    Ok(out)
}

/// Once a prefix of a batch has failed, the batch fails in the same way.
proof fn lemma_failure_stays(
    rows: Seq<Seq<(Seq<char>, Option<Seq<char>>)>>,
    k: int,
    e: ErrorView,
)
    requires
        0 <= k <= rows.len(),
        decode_rows_spec(rows.take(k)) == Err::<Seq<TypedRowView>, ErrorView>(e),
    ensures
        decode_rows_spec(rows) == Err::<Seq<TypedRowView>, ErrorView>(e),
    decreases rows.len() - k,
{
    if k < rows.len() {
        assert(rows.take(k + 1).drop_last() =~= rows.take(k));
        lemma_failure_stays(rows, k + 1, e);
    } else {
        assert(rows.take(k) =~= rows);
    }
}

} // verus!
