//! The failure of an operation: a status code and a text.

use vstd::prelude::*;
use vstd::string::to_string_from_display_ensures;
use crate::status::{
    SYMPHONIA_C_DECODE_ERROR, SYMPHONIA_C_INTERNAL_ERROR, SYMPHONIA_C_INVALID_ARGUMENT,
    SYMPHONIA_C_IO_ERROR, SYMPHONIA_C_LIMIT_ERROR, SYMPHONIA_C_UNSUPPORTED,
};

verus! {

/// Why an operation failed.
#[derive(Debug)]
pub struct ApiError {
    pub status: i32,
    pub message: String,
}

/// The declared outside type `std::io::Error`; nothing is said of what it holds.
#[verifier::external_type_specification]
#[verifier::external_body]
pub struct ExIoError(std::io::Error);

/// The declared outside type `SeekErrorKind` of Symphonia; nothing is said of what it holds.
#[verifier::external_type_specification]
#[verifier::external_body]
pub struct ExSeekErrorKind(symphonia::core::errors::SeekErrorKind);

/// The declared outside type `Error` of Symphonia, with its variants.
#[verifier::external_type_specification]
pub struct ExError(symphonia::core::errors::Error);

/// An error of Symphonia.
pub type MediaError = symphonia::core::errors::Error;

/// The status code under which an error of Symphonia is reported.
pub open spec fn media_error_status(error: MediaError) -> i32 {
    match error {
        MediaError::IoError(_) => SYMPHONIA_C_IO_ERROR,
        MediaError::DecodeError(_) | MediaError::ResetRequired => SYMPHONIA_C_DECODE_ERROR,
        MediaError::SeekError(_) => SYMPHONIA_C_DECODE_ERROR,
        MediaError::Unsupported(_) => SYMPHONIA_C_UNSUPPORTED,
        MediaError::LimitError(_) => SYMPHONIA_C_LIMIT_ERROR,
        _ => SYMPHONIA_C_INTERNAL_ERROR,
    }
}

impl ApiError {
    /// The failure has this status and this text.
    pub open spec fn says(self, status: i32, message: Seq<char>) -> bool {
        self.status == status && self.message@ == message
    }

    /// The failure reports this error of Symphonia: the status that stands for its variant, and
    /// the text that it displays.
    pub open spec fn reports(self, error: MediaError) -> bool {
        &&& self.status == media_error_status(error)
        &&& to_string_from_display_ensures::<MediaError>(&error, self.message)
    }

    /// The failure reports this I/O error, by the text that it displays.
    pub open spec fn reports_io(self, error: std::io::Error) -> bool {
        &&& self.status == SYMPHONIA_C_IO_ERROR
        &&& to_string_from_display_ensures::<std::io::Error>(&error, self.message)
    }

    /// A failure with this status and this text.
    pub fn new(status: i32, message: &str) -> (error: ApiError)
        ensures
            error.says(status, message@),
    {
        ApiError { status, message: message.to_owned() }
    }

    /// A failure for which the caller's arguments are to blame.
    pub fn invalid_argument(message: &str) -> (error: ApiError)
        ensures
            error.says(SYMPHONIA_C_INVALID_ARGUMENT, message@),
    {
        ApiError::new(SYMPHONIA_C_INVALID_ARGUMENT, message)
    }
}

impl From<std::io::Error> for ApiError {
    fn from(error: std::io::Error) -> (result: ApiError)
        ensures
            result.reports_io(error),
    {
        ApiError { status: SYMPHONIA_C_IO_ERROR, message: error.to_string() }
    }
}

impl vstd::std_specs::convert::FromSpecImpl<std::io::Error> for ApiError {
    open spec fn obeys_from_spec() -> bool {
        false
    }

    open spec fn from_spec(error: std::io::Error) -> ApiError {
        arbitrary()
    }
}

impl From<MediaError> for ApiError {
    fn from(error: MediaError) -> (result: ApiError)
        ensures
            result.reports(error),
    {
        let status: i32 = match &error {
            MediaError::IoError(_) => SYMPHONIA_C_IO_ERROR,
            MediaError::DecodeError(_) | MediaError::ResetRequired => SYMPHONIA_C_DECODE_ERROR,
            MediaError::SeekError(_) => SYMPHONIA_C_DECODE_ERROR,
            MediaError::Unsupported(_) => SYMPHONIA_C_UNSUPPORTED,
            MediaError::LimitError(_) => SYMPHONIA_C_LIMIT_ERROR,
            _ => SYMPHONIA_C_INTERNAL_ERROR,
        };
        ApiError { status, message: error.to_string() }
    }
}

impl vstd::std_specs::convert::FromSpecImpl<MediaError> for ApiError {
    open spec fn obeys_from_spec() -> bool {
        false
    }

    open spec fn from_spec(error: MediaError) -> ApiError {
        arbitrary()
    }
}

} // verus!
