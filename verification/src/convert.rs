//! How the errors of the layers below turn into [`GlobleError`]: one
//! conversion for each source, none of which can fail. Each fixes the kind
//! of the error; the words it carries are those of the source, which may
//! differ from one machine to the next. The conversions of a decode error
//! and of a bare message stand with the JSON reader and with the error.

use vstd::prelude::*;
use crate::error::GlobleError;

verus! {

/// `reqwest::Error`, of which only the words are read.
#[verifier::external_type_specification]
#[verifier::external_body]
pub struct ExTransportError(reqwest::Error);

/// `std::io::Error`, of which only the words are read.
#[verifier::external_type_specification]
#[verifier::external_body]
pub struct ExDiskError(std::io::Error);

/// `polars::error::PolarsError`, of which only the words are read.
#[verifier::external_type_specification]
#[verifier::external_body]
pub struct ExFrameError(polars::error::PolarsError);

/// `sqlx::Error`, of which only the words are read.
#[verifier::external_type_specification]
#[verifier::external_body]
pub struct ExDatabaseError(sqlx::Error);

/// `std::num::ParseIntError`, of which only the words are read.
#[verifier::external_type_specification]
#[verifier::external_body]
pub struct ExParseIntError(std::num::ParseIntError);

/// `std::num::ParseFloatError`, of which only the words are read.
#[verifier::external_type_specification]
#[verifier::external_body]
pub struct ExParseRealError(std::num::ParseFloatError);

/// `std::str::ParseBoolError`, of which only the words are read.
#[verifier::external_type_specification]
#[verifier::external_body]
pub struct ExParseBoolError(std::str::ParseBoolError);

/// `std::sync::PoisonError`, of which only the words are read.
#[verifier::external_type_specification]
#[verifier::external_body]
#[verifier::reject_recursive_types(T)]
pub struct ExPoisonError<T>(std::sync::PoisonError<T>);

/// `reqwest::Error` written with `Display`. Nothing is claimed of the words.
#[verifier::external_body]
fn transport_text(e: &reqwest::Error) -> (r: String) {
    e.to_string()
}

/// `std::io::Error` written with `Display`. Nothing is claimed of the words.
#[verifier::external_body]
fn disk_text(e: &std::io::Error) -> (r: String) {
    e.to_string()
}

/// `polars::error::PolarsError` written with `{:?}`. Nothing is claimed of the words.
#[verifier::external_body]
fn frame_text(e: &polars::error::PolarsError) -> (r: String) {
    format!("{:?}", e)
}

/// `sqlx::Error` written with `Display`. Nothing is claimed of the words.
#[verifier::external_body]
fn database_text(e: &sqlx::Error) -> (r: String) {
    e.to_string()
}

/// `std::num::ParseIntError` written with `Display`. Nothing is claimed of the words.
#[verifier::external_body]
fn whole_number_fault_text(e: &std::num::ParseIntError) -> (r: String) {
    e.to_string()
}

/// `std::num::ParseFloatError` written with `Display`. Nothing is claimed of the words.
#[verifier::external_body]
fn real_number_fault_text(e: &std::num::ParseFloatError) -> (r: String) {
    e.to_string()
}

/// `std::str::ParseBoolError` written with `Display`. Nothing is claimed of the words.
#[verifier::external_body]
fn truth_fault_text(e: &std::str::ParseBoolError) -> (r: String) {
    e.to_string()
}

/// `std::sync::PoisonError` written with `{:?}`. Nothing is claimed of the
/// words.
#[verifier::external_body]
fn poison_text<T>(e: &std::sync::PoisonError<T>) -> (r: String) {
    format!("{:?}", e)
}

/// A failure of the transport is a transport failure, and carries its cause in
/// words.
impl From<reqwest::Error> for GlobleError {
    fn from(e: reqwest::Error) -> (r: GlobleError)
        ensures
            r@ is ReqwestError,
    {
        GlobleError::ReqwestError(transport_text(&e))
    }
}

/// What the conversion gives is stated on `from` itself, over the view.
impl vstd::std_specs::convert::FromSpecImpl<reqwest::Error> for GlobleError {
    open spec fn obeys_from_spec() -> bool {
        false
    }

    open spec fn from_spec(e: reqwest::Error) -> GlobleError {
        arbitrary()
    }
}

/// A failure of the disk is a failure to read or write a stored record.
impl From<std::io::Error> for GlobleError {
    fn from(e: std::io::Error) -> (r: GlobleError)
        ensures
            r@ is IoError,
    {
        GlobleError::IoError(disk_text(&e))
    }
}

/// What the conversion gives is stated on `from` itself, over the view.
impl vstd::std_specs::convert::FromSpecImpl<std::io::Error> for GlobleError {
    open spec fn obeys_from_spec() -> bool {
        false
    }

    open spec fn from_spec(e: std::io::Error) -> GlobleError {
        arbitrary()
    }
}

/// A failure of a data frame is a failure of a table.
impl From<polars::error::PolarsError> for GlobleError {
    fn from(e: polars::error::PolarsError) -> (r: GlobleError)
        ensures
            r@ is PolarsError,
    {
        GlobleError::PolarsError(frame_text(&e))
    }
}

/// What the conversion gives is stated on `from` itself, over the view.
impl vstd::std_specs::convert::FromSpecImpl<polars::error::PolarsError> for GlobleError {
    open spec fn obeys_from_spec() -> bool {
        false
    }

    open spec fn from_spec(e: polars::error::PolarsError) -> GlobleError {
        arbitrary()
    }
}

/// A failure of the database is a failure to read or write a stored record.
impl From<sqlx::Error> for GlobleError {
    fn from(e: sqlx::Error) -> (r: GlobleError)
        ensures
            r@ is IoError,
    {
        GlobleError::IoError(database_text(&e))
    }
}

/// What the conversion gives is stated on `from` itself, over the view.
impl vstd::std_specs::convert::FromSpecImpl<sqlx::Error> for GlobleError {
    open spec fn obeys_from_spec() -> bool {
        false
    }

    open spec fn from_spec(e: sqlx::Error) -> GlobleError {
        arbitrary()
    }
}

/// A text that is no whole number breaks a rule.
impl From<std::num::ParseIntError> for GlobleError {
    fn from(e: std::num::ParseIntError) -> (r: GlobleError)
        ensures
            r@ is OtherError,
    {
        GlobleError::OtherError(whole_number_fault_text(&e))
    }
}

/// What the conversion gives is stated on `from` itself, over the view.
impl vstd::std_specs::convert::FromSpecImpl<std::num::ParseIntError> for GlobleError {
    open spec fn obeys_from_spec() -> bool {
        false
    }

    open spec fn from_spec(e: std::num::ParseIntError) -> GlobleError {
        arbitrary()
    }
}

/// A text that is no real number breaks a rule.
impl From<std::num::ParseFloatError> for GlobleError {
    fn from(e: std::num::ParseFloatError) -> (r: GlobleError)
        ensures
            r@ is OtherError,
    {
        GlobleError::OtherError(real_number_fault_text(&e))
    }
}

/// What the conversion gives is stated on `from` itself, over the view.
impl vstd::std_specs::convert::FromSpecImpl<std::num::ParseFloatError> for GlobleError {
    open spec fn obeys_from_spec() -> bool {
        false
    }

    open spec fn from_spec(e: std::num::ParseFloatError) -> GlobleError {
        arbitrary()
    }
}

/// A text that is no truth value breaks a rule.
impl From<std::str::ParseBoolError> for GlobleError {
    fn from(e: std::str::ParseBoolError) -> (r: GlobleError)
        ensures
            r@ is OtherError,
    {
        GlobleError::OtherError(truth_fault_text(&e))
    }
}

/// What the conversion gives is stated on `from` itself, over the view.
impl vstd::std_specs::convert::FromSpecImpl<std::str::ParseBoolError> for GlobleError {
    open spec fn obeys_from_spec() -> bool {
        false
    }

    open spec fn from_spec(e: std::str::ParseBoolError) -> GlobleError {
        arbitrary()
    }
}

/// A lock that a panicking thread left behind breaks a rule.
impl<T> From<std::sync::PoisonError<T>> for GlobleError {
    fn from(e: std::sync::PoisonError<T>) -> (r: GlobleError)
        ensures
            r@ is OtherError,
    {
        GlobleError::OtherError(poison_text(&e))
    }
}

/// What the conversion gives is stated on `from` itself, over the view.
impl<T> vstd::std_specs::convert::FromSpecImpl<std::sync::PoisonError<T>> for GlobleError {
    open spec fn obeys_from_spec() -> bool {
        false
    }

    open spec fn from_spec(e: std::sync::PoisonError<T>) -> GlobleError {
        arbitrary()
    }
}

} // verus!
