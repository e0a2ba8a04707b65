//! The errors of a run.

use vstd::prelude::*;
use vstd::std_specs::convert::FromSpecImpl;

verus! {

/// `std::io::Error`, carried in `HdtrError::IO` and never looked into.
#[verifier::external_type_specification]
#[verifier::external_body]
pub struct ExIoError(std::io::Error);

/// `image::ImageError`, carried in `HdtrError::InputFileReadError` and
/// never looked into.
#[verifier::external_type_specification]
#[verifier::external_body]
pub struct ExImageError(image::ImageError);

/// `serde_json::Error`, carried in `HdtrError::InvalidPipelineJson` and
/// never looked into.
#[verifier::external_type_specification]
#[verifier::external_body]
pub struct ExJsonError(serde_json::Error);

/// What can stop a run. Nothing is retried: the first failure ends the run.
#[derive(Debug)]
pub enum HdtrError {
    /// A file could not be read or written.
    IO(std::io::Error),
    /// The job lists no input image.
    NoInputFilesSpecified,
    /// A file that the job lists is not there.
    InputFileDoesNotExist(String),
    /// A file could not be decoded as an image.
    InputFileReadError(image::ImageError),
    /// An image or a mask does not have the size that was expected of it.
    DimensionMismatch { expected: (u32, u32), received: (u32, u32), details: String },
    /// The job description is not valid JSON for a job.
    InvalidPipelineJson(serde_json::Error),
    /// The job cannot be carried out as it is described.
    PipelineError(String),
    /// The job does not say where its result goes.
    NoSaveOperationSpecified,
    /// The file at this path could not be written.
    ErrorWritingFile(String),
    /// Any other failure, in words.
    HDTR(String),
}

impl From<serde_json::Error> for HdtrError {
    fn from(value: serde_json::Error) -> (r: Self) {
        HdtrError::InvalidPipelineJson(value)
    }
}

impl FromSpecImpl<serde_json::Error> for HdtrError {
    open spec fn obeys_from_spec() -> bool {
        true
    }

    open spec fn from_spec(value: serde_json::Error) -> Self {
        HdtrError::InvalidPipelineJson(value)
    }
}

impl From<std::io::Error> for HdtrError {
    fn from(value: std::io::Error) -> (r: Self) {
        HdtrError::IO(value)
    }
}

impl FromSpecImpl<std::io::Error> for HdtrError {
    open spec fn obeys_from_spec() -> bool {
        true
    }

    open spec fn from_spec(value: std::io::Error) -> Self {
        HdtrError::IO(value)
    }
}

impl From<image::ImageError> for HdtrError {
    fn from(value: image::ImageError) -> (r: Self) {
        HdtrError::InputFileReadError(value)
    }
}

impl FromSpecImpl<image::ImageError> for HdtrError {
    open spec fn obeys_from_spec() -> bool {
        true
    }

    open spec fn from_spec(value: image::ImageError) -> Self {
        HdtrError::InputFileReadError(value)
    }
}

impl From<String> for HdtrError {
    fn from(value: String) -> (r: Self) {
        HdtrError::HDTR(value)
    }
}

impl FromSpecImpl<String> for HdtrError {
    open spec fn obeys_from_spec() -> bool {
        true
    }

    open spec fn from_spec(value: String) -> Self {
        HdtrError::HDTR(value)
    }
}

impl From<&'static str> for HdtrError {
    fn from(value: &'static str) -> (r: Self)
        ensures
            r matches HdtrError::HDTR(message) && message@ == value@,
    {
        HdtrError::HDTR(value.to_owned())
    }
}

impl FromSpecImpl<&'static str> for HdtrError {
    /// A `String` is known by its characters only, so the result is not
    /// pinned to one value: `from` states what it holds.
    open spec fn obeys_from_spec() -> bool {
        false
    }

    open spec fn from_spec(value: &'static str) -> Self {
        HdtrError::HDTR(choose|message: String| message@ == value@)
    }
}

} // verus!
