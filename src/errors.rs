//! The error type of the decoder and the router.
use vstd::prelude::*;
use vstd::string::{to_string_from_display_ensures, StringExecFns};

verus! {

/// `std::io::Error`, carried by `HttpError::IOError`; opaque here.
#[verifier::external_type_specification]
#[verifier::external_body]
pub struct ExIoError(std::io::Error);

/// `std::str::Utf8Error`, carried by `HttpError::UTF8Error`; opaque here.
#[verifier::external_type_specification]
#[verifier::external_body]
pub struct ExUtf8Error(std::str::Utf8Error);

/// Why a request could not be decoded or served.
#[derive(Debug)]
pub enum HttpError {
    ParseMethodError,
    ParseProtocolError,
    InvalidRequestFormat,
    IOError(std::io::Error),
    UTF8Error(std::str::Utf8Error),
}

impl HttpError {
    /// A one-line description of the error, for diagnostics.
    pub fn message(&self) -> (r: String)
        ensures
            self is ParseMethodError ==> r@ == "Failed to parse method."@,
            self is ParseProtocolError ==> r@ == "Failed to parse HTTP protocol"@,
            self is InvalidRequestFormat ==> r@ == "Invalid request format"@,
            self matches HttpError::IOError(e) ==> exists|d: String|
                to_string_from_display_ensures::<std::io::Error>(&e, d) && r@ == "Error: "@ + d@,
            self matches HttpError::UTF8Error(e) ==> exists|d: String|
                to_string_from_display_ensures::<std::str::Utf8Error>(&e, d) && r@ == "Error: "@
                    + d@,
    {
        match self {
            HttpError::ParseMethodError => String::from_str("Failed to parse method."),
            HttpError::ParseProtocolError => String::from_str("Failed to parse HTTP protocol"),
            HttpError::InvalidRequestFormat => String::from_str("Invalid request format"),
            HttpError::IOError(e) => {
                let mut m = String::from_str("Error: ");
                let detail = e.to_string();
                m.append(detail.as_str());
                m
            },
            HttpError::UTF8Error(e) => {
                let mut m = String::from_str("Error: ");
                let detail = e.to_string();
                m.append(detail.as_str());
                m
            },
        }
    }
}

impl From<std::str::Utf8Error> for HttpError {
    fn from(value: std::str::Utf8Error) -> Self {
        HttpError::UTF8Error(value)
    }
}

impl vstd::std_specs::convert::FromSpecImpl<std::str::Utf8Error> for HttpError {
    open spec fn obeys_from_spec() -> bool {
        true
    }

    open spec fn from_spec(v: std::str::Utf8Error) -> Self {
        HttpError::UTF8Error(v)
    }
}

impl From<std::io::Error> for HttpError {
    fn from(value: std::io::Error) -> Self {
        HttpError::IOError(value)
    }
}

impl vstd::std_specs::convert::FromSpecImpl<std::io::Error> for HttpError {
    open spec fn obeys_from_spec() -> bool {
        true
    }

    open spec fn from_spec(v: std::io::Error) -> Self {
        HttpError::IOError(v)
    }
}

} // verus!
