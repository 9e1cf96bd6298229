//! The error type shared by every operation.

use vstd::prelude::*;
use vstd::string::StringExecFns;

verus! {

/// The image codec's error, carried through untouched.
#[verifier::external_type_specification]
#[verifier::external_body]
pub struct ExImageError(image::ImageError);

/// The operating system's I/O error, carried through untouched.
#[verifier::external_type_specification]
#[verifier::external_body]
pub struct ExIoError(std::io::Error);

/// Every way an operation of this library can fail.
#[derive(Debug)]
pub enum RqrError {
    /// The symbol generator rejected the content at the chosen level.
    EncodingError(String),
    /// No grid was found, or none of the grids found could be read.
    DecodingError(String),
    /// The image codec failed.
    ImageError(image::ImageError),
    /// A file or stream could not be accessed.
    IoError(std::io::Error),
    /// A parameter was outside what the operation accepts.
    InvalidInput(String),
    /// The destination's extension names no supported format.
    UnsupportedFormat(String),
}

impl RqrError {
    /// What the description of each kind of error begins with.
    pub open spec fn heading(&self) -> Seq<char> {
        match self {
            RqrError::EncodingError(_) => "QR code encoding failed: "@,
            RqrError::DecodingError(_) => "QR code decoding failed: "@,
            RqrError::ImageError(_) => "Image processing error: "@,
            RqrError::IoError(_) => "File I/O error: "@,
            RqrError::InvalidInput(_) => "Invalid input: "@,
            RqrError::UnsupportedFormat(_) => "Output format not supported: "@,
        }
    }

    /// Describes the error for a reader: the heading of its kind, then its
    /// message. For an error of the image codec or of the operating system
    /// the message is the one that error gives of itself.
    pub fn describe(&self) -> (text: String)
        ensures
            self.heading().is_prefix_of(text@),
            match self {
                RqrError::EncodingError(message)
                | RqrError::DecodingError(message)
                | RqrError::InvalidInput(message)
                | RqrError::UnsupportedFormat(message) => text@ == self.heading() + message@,
                RqrError::ImageError(_) | RqrError::IoError(_) => true,
            },
    {
        match self {
            RqrError::EncodingError(message) => String::from_str(
                "QR code encoding failed: ",
            ).concat(message.as_str()),
            RqrError::DecodingError(message) => String::from_str(
                "QR code decoding failed: ",
            ).concat(message.as_str()),
            RqrError::ImageError(e) => String::from_str("Image processing error: ").concat(
                e.to_string().as_str(),
            ),
            RqrError::IoError(e) => String::from_str("File I/O error: ").concat(
                e.to_string().as_str(),
            ),
            RqrError::InvalidInput(message) => String::from_str("Invalid input: ").concat(
                message.as_str(),
            ),
            RqrError::UnsupportedFormat(message) => String::from_str(
                "Output format not supported: ",
            ).concat(message.as_str()),
        }
    }
}

} // verus!
