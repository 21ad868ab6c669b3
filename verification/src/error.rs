//! The failures that end a run.

use vstd::prelude::*;
use vstd::string::*;
use crate::record::Column;

verus! {

/// Why a run was aborted. Every failure is fatal: nothing is retried and no
/// state is persisted after one.
#[derive(Debug, PartialEq, Eq)]
pub enum Error {
    /// The state file exists but does not hold a state.
    StateCorrupt { path: String },
    /// The state file could not be read, created, written or renamed.
    StateIoError { path: String },
    /// The query for a domain failed.
    QueryError { domain: String },
    /// A result row lacks a required column, or holds no value in it.
    MissingField { column: Column },
    /// A result row holds a value that is not of the column's form.
    InvalidFormat { column: Column, value: String },
    /// An alert could not be delivered.
    NotifyError,
}

/// An `Error` as a mathematical value.
pub enum ErrorView {
    StateCorrupt { path: Seq<char> },
    StateIoError { path: Seq<char> },
    QueryError { domain: Seq<char> },
    MissingField { column: Column },
    InvalidFormat { column: Column, value: Seq<char> },
    NotifyError,
}

impl View for Error {
    type V = ErrorView;

    open spec fn view(&self) -> ErrorView {
        match *self {
            Error::StateCorrupt { path } => ErrorView::StateCorrupt { path: path@ },
            Error::StateIoError { path } => ErrorView::StateIoError { path: path@ },
            Error::QueryError { domain } => ErrorView::QueryError { domain: domain@ },
            Error::MissingField { column } => ErrorView::MissingField { column },
            Error::InvalidFormat { column, value } => ErrorView::InvalidFormat {
                column,
                value: value@,
            },
            Error::NotifyError => ErrorView::NotifyError,
        }
    }
}

impl ErrorView {
    /// The failure in words, with the path, domain or column it concerns.
    pub open spec fn message(self) -> Seq<char> {
        match self {
            ErrorView::StateCorrupt { path } => "Error deserializing state file at "@ + path,
            ErrorView::StateIoError { path } => "Error accessing state file at "@ + path,
            ErrorView::QueryError { domain } => "Error querying domain "@ + domain,
            ErrorView::MissingField { column } => column.name_spec() + " was None"@,
            ErrorView::InvalidFormat { column, value } => column.name_spec()
                + " is not an integer: "@ + value,
            ErrorView::NotifyError => "Error logging certificate"@,
        }
    }
}

impl Error {
    /// The failure in words, with the path, domain or column it concerns.
    pub fn message(&self) -> (text: String)
        ensures
            text@ == self@.message(),
    {
        match self {
            Error::StateCorrupt { path } => {
                let mut text = "Error deserializing state file at ".to_owned();
                text.append(path.as_str());
                text
            },
            Error::StateIoError { path } => {
                let mut text = "Error accessing state file at ".to_owned();
                text.append(path.as_str());
                text
            },
            Error::QueryError { domain } => {
                let mut text = "Error querying domain ".to_owned();
                text.append(domain.as_str());
                text
            },
            Error::MissingField { column } => {
                let mut text = column.name().to_owned();
                text.append(" was None");
                text
            },
            Error::InvalidFormat { column, value } => {
                let mut text = column.name().to_owned();
                text.append(" is not an integer: ");
                text.append(value.as_str());
                text
            },
            Error::NotifyError => "Error logging certificate".to_owned(),
        }
    }
}

} // verus!
