//! What can go wrong with a request, and what the client is told about it.

use vstd::prelude::*;

verus! {

/// A failure of one request. Where the cause lies outside this library the
/// variant carries the cause's own words.
#[derive(Debug, PartialEq, Eq)]
pub enum AppError {
    /// The document could not be loaded or read.
    Pdfium(String),
    /// The multipart form could not be decoded.
    Multipart(String),
    /// The form holds no field at all.
    FieldNotFound,
    /// The rendering task itself broke down.
    Task(String),
    /// At least one image could not be stored.
    S3(String),
    /// A secret is configured and the token is missing or wrong.
    Unauthorized,
    /// The page expression is malformed, or names a page the document lacks.
    InvalidPageRange(String),
    /// The scale factor lies outside the accepted interval.
    InvalidScale(String),
}

/// A failure as contracts speak of it: the variants of [`AppError`], each with
/// the characters of its text.
pub enum Failure {
    Pdfium(Seq<char>),
    Multipart(Seq<char>),
    FieldNotFound,
    Task(Seq<char>),
    S3(Seq<char>),
    Unauthorized,
    InvalidPageRange(Seq<char>),
    InvalidScale(Seq<char>),
}

impl View for AppError {
    type V = Failure;

    open spec fn view(&self) -> Failure {
        match self {
            AppError::Pdfium(cause) => Failure::Pdfium(cause@),
            AppError::Multipart(cause) => Failure::Multipart(cause@),
            AppError::FieldNotFound => Failure::FieldNotFound,
            AppError::Task(cause) => Failure::Task(cause@),
            AppError::S3(cause) => Failure::S3(cause@),
            AppError::Unauthorized => Failure::Unauthorized,
            AppError::InvalidPageRange(detail) => Failure::InvalidPageRange(detail@),
            AppError::InvalidScale(detail) => Failure::InvalidScale(detail@),
        }
    }
}

impl Failure {
    /// The HTTP status a failure is answered with: 401 where access was refused,
    /// 400 where the request is at fault, 500 where the server is.
    pub open spec fn status_code(self) -> u16 {
        match self {
            Failure::Unauthorized => 401,
            Failure::Multipart(_) => 400,
            Failure::FieldNotFound => 400,
            Failure::InvalidPageRange(_) => 400,
            Failure::InvalidScale(_) => 400,
            Failure::Pdfium(_) => 500,
            Failure::Task(_) => 500,
            Failure::S3(_) => 500,
        }
    }

    /// The message the client reads. Causes inside the server are not disclosed.
    pub open spec fn message_text(self) -> Seq<char> {
        match self {
            Failure::Pdfium(_) => "Internal Server Error"@,
            Failure::Multipart(_) => "Failed to read PDF file from request"@,
            Failure::FieldNotFound => "Form does not contain any fields"@,
            Failure::Task(_) => "Internal Server Error"@,
            Failure::S3(_) => "Internal Server Error"@,
            Failure::Unauthorized => "Invalid or missing token"@,
            Failure::InvalidPageRange(detail) => "Invalid page range: "@ + detail,
            Failure::InvalidScale(detail) => "Invalid scale: "@ + detail,
        }
    }

    /// The full account of the failure, as it is logged.
    pub open spec fn description(self) -> Seq<char> {
        match self {
            Failure::Pdfium(cause) => "pdfium error: "@ + cause,
            Failure::Multipart(cause) => "form error: "@ + cause,
            Failure::FieldNotFound => "no field found in multipart form"@,
            Failure::Task(cause) => "task error: "@ + cause,
            Failure::S3(cause) => "s3 error: "@ + cause,
            Failure::Unauthorized => "unauthorized: invalid or missing token"@,
            Failure::InvalidPageRange(detail) => "invalid page range: "@ + detail,
            Failure::InvalidScale(detail) => "invalid scale: "@ + detail,
        }
    }
}

impl AppError {
    /// The HTTP status this failure is answered with.
    pub fn status(&self) -> (code: u16)
        ensures
            code == self@.status_code(),
    {
        match self {
            AppError::Unauthorized => 401,
            AppError::Multipart(_) => 400,
            AppError::FieldNotFound => 400,
            AppError::InvalidPageRange(_) => 400,
            AppError::InvalidScale(_) => 400,
            AppError::Pdfium(_) => 500,
            AppError::Task(_) => 500,
            AppError::S3(_) => 500,
        }
    }

    /// The message the client reads.
    pub fn message(&self) -> (text: String)
        ensures
            text@ == self@.message_text(),
    {
        match self {
            AppError::Pdfium(_) => String::from_str("Internal Server Error"),
            AppError::Multipart(_) => String::from_str("Failed to read PDF file from request"),
            AppError::FieldNotFound => String::from_str("Form does not contain any fields"),
            AppError::Task(_) => String::from_str("Internal Server Error"),
            AppError::S3(_) => String::from_str("Internal Server Error"),
            AppError::Unauthorized => String::from_str("Invalid or missing token"),
            AppError::InvalidPageRange(detail) => String::from_str("Invalid page range: ").concat(
                detail.as_str(),
            ),
            AppError::InvalidScale(detail) => String::from_str("Invalid scale: ").concat(
                detail.as_str(),
            ),
        }
    }

    /// The full account of the failure, for the log.
    pub fn describe(&self) -> (text: String)
        ensures
            text@ == self@.description(),
    {
        match self {
            AppError::Pdfium(cause) => String::from_str("pdfium error: ").concat(cause.as_str()),
            AppError::Multipart(cause) => String::from_str("form error: ").concat(cause.as_str()),
            AppError::FieldNotFound => String::from_str("no field found in multipart form"),
            AppError::Task(cause) => String::from_str("task error: ").concat(cause.as_str()),
            AppError::S3(cause) => String::from_str("s3 error: ").concat(cause.as_str()),
            AppError::Unauthorized => String::from_str("unauthorized: invalid or missing token"),
            AppError::InvalidPageRange(detail) => String::from_str("invalid page range: ").concat(
                detail.as_str(),
            ),
            AppError::InvalidScale(detail) => String::from_str("invalid scale: ").concat(
                detail.as_str(),
            ),
        }
    }
}

} // verus!
