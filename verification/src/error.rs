//! The closed set of failures that every fallible operation reports.

use vstd::prelude::*;
use vstd::string::*;
use crate::text::{decimal, decimal_text};

verus! {

/// Every way an operation of this crate can fail.
#[derive(Debug, PartialEq)]
pub enum GlobleError {
    /// The request never got an answer: connection, name lookup or TLS
    /// failed. Carries the cause as the transport reported it.
    ReqwestError(String),
    /// A payload did not have the expected shape. Carries the offending
    /// text, then the line and column of the fault (both 0 when the fault
    /// has no position).
    SerdeError(String, usize, usize),
    /// A table operation failed: a column is missing, there is nothing to
    /// merge, or rows and columns do not fit together.
    PolarsError(String),
    /// The credential record, or another stored record, could not be read
    /// or written.
    IoError(String),
    /// The service answered 429.
    TooManyRequests(String),
    /// A rule of this crate was broken, for instance a listing fetch
    /// without a known identity; also what a bare message turns into.
    OtherError(String),
    /// Any other status than 200 and 429: the status, the request it
    /// answers, and the body of the answer.
    HttpError(u16, String, String),
}

/// What a [`GlobleError`] holds, with its texts as character sequences.
pub enum ErrorView {
    ReqwestError(Seq<char>),
    SerdeError(Seq<char>, usize, usize),
    PolarsError(Seq<char>),
    IoError(Seq<char>),
    TooManyRequests(Seq<char>),
    OtherError(Seq<char>),
    HttpError(u16, Seq<char>, Seq<char>),
}

impl View for GlobleError {
    type V = ErrorView;

    open spec fn view(&self) -> ErrorView {
        match self {
            GlobleError::ReqwestError(m) => ErrorView::ReqwestError(m@),
            GlobleError::SerdeError(raw, line, column) => ErrorView::SerdeError(raw@, *line, *column),
            GlobleError::PolarsError(m) => ErrorView::PolarsError(m@),
            GlobleError::IoError(m) => ErrorView::IoError(m@),
            GlobleError::TooManyRequests(m) => ErrorView::TooManyRequests(m@),
            GlobleError::OtherError(m) => ErrorView::OtherError(m@),
            GlobleError::HttpError(status, context, body) => ErrorView::HttpError(*status, context@, body@),
        }
    }
}

impl GlobleError {
    /// A copy of the error.
    pub fn duplicate(&self) -> (r: GlobleError)
        ensures
            r@ == self@,
    {
        match self {
            GlobleError::ReqwestError(m) => GlobleError::ReqwestError(m.clone()),
            GlobleError::SerdeError(raw, line, column) => GlobleError::SerdeError(raw.clone(), *line, *column),
            GlobleError::PolarsError(m) => GlobleError::PolarsError(m.clone()),
            GlobleError::IoError(m) => GlobleError::IoError(m.clone()),
            GlobleError::TooManyRequests(m) => GlobleError::TooManyRequests(m.clone()),
            GlobleError::OtherError(m) => GlobleError::OtherError(m.clone()),
            GlobleError::HttpError(status, context, body) => GlobleError::HttpError(*status, context.clone(), body.clone()),
        }
    }
}

/// The error in words, as it is written to the log: the kind, then what
/// the error holds.
pub open spec fn description(e: ErrorView) -> Seq<char> {
    match e {
        ErrorView::ReqwestError(m) => "ReqwestError: "@ + m,
        ErrorView::SerdeError(raw, line, column) => "SerdeError: "@ + raw + ", line "@ + decimal(line as nat)
            + ", column "@ + decimal(column as nat),
        ErrorView::PolarsError(m) => "PolarsError: "@ + m,
        ErrorView::IoError(m) => "IoError: "@ + m,
        ErrorView::TooManyRequests(m) => "TooManyRequests: "@ + m,
        ErrorView::OtherError(m) => "OtherError: "@ + m,
        ErrorView::HttpError(status, context, body) => "HttpError: status "@ + decimal(status as nat) + ", "@
            + context + ", Response: "@ + body,
    }
}

impl GlobleError {
    /// The error in words.
    pub fn describe(&self) -> (r: String)
        ensures
            r@ == description(self@),
    {
        match self {
            GlobleError::ReqwestError(m) => {
                let mut r = String::from_str("ReqwestError: ");
                r.append(m.as_str());
                r
            },
            GlobleError::SerdeError(raw, line, column) => {
                let mut r = String::from_str("SerdeError: ");
                r.append(raw.as_str());
                r.append(", line ");
                r.append(decimal_text(*line as u64).as_str());
                r.append(", column ");
                r.append(decimal_text(*column as u64).as_str());
                r
            },
            GlobleError::PolarsError(m) => {
                let mut r = String::from_str("PolarsError: ");
                r.append(m.as_str());
                r
            },
            GlobleError::IoError(m) => {
                let mut r = String::from_str("IoError: ");
                r.append(m.as_str());
                r
            },
            GlobleError::TooManyRequests(m) => {
                let mut r = String::from_str("TooManyRequests: ");
                r.append(m.as_str());
                r
            },
            GlobleError::OtherError(m) => {
                let mut r = String::from_str("OtherError: ");
                r.append(m.as_str());
                r
            },
            GlobleError::HttpError(status, context, body) => {
                let mut r = String::from_str("HttpError: status ");
                r.append(decimal_text(*status as u64).as_str());
                r.append(", ");
                r.append(context.as_str());
                r.append(", Response: ");
                r.append(body.as_str());
                r
            },
        }
    }
}

/// A text as `{:?}` writes it: between double quotes, with what cannot stand
/// there escaped.
pub uninterp spec fn quoted(text: Seq<char>) -> Seq<char>;

/// The `Debug` text of a `str`, which [`quoted`] names.
#[verifier::external_body]
fn quoted_text(text: &str) -> (r: String)
    ensures
        r@ == quoted(text@),
{
    format!("{:?}", text)
}

/// A borrowed message is a broken rule too, and is held in quotes.
impl<'a> From<&'a str> for GlobleError {
    fn from(e: &'a str) -> (r: GlobleError)
        ensures
            r@ == ErrorView::OtherError(quoted(e@)),
    {
        GlobleError::OtherError(quoted_text(e))
    }
}

/// What the conversion gives is stated on `from` itself, over the view.
impl<'a> vstd::std_specs::convert::FromSpecImpl<&'a str> for GlobleError {
    open spec fn obeys_from_spec() -> bool {
        false
    }

    open spec fn from_spec(e: &'a str) -> GlobleError {
        arbitrary()
    }
}

/// A bare message is a broken rule.
impl From<String> for GlobleError {
    fn from(e: String) -> (r: GlobleError) {
        GlobleError::OtherError(e)
    }
}

impl vstd::std_specs::convert::FromSpecImpl<String> for GlobleError {
    open spec fn obeys_from_spec() -> bool {
        true
    }

    open spec fn from_spec(e: String) -> GlobleError {
        GlobleError::OtherError(e)
    }
}

} // verus!
