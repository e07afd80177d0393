//! The answer to a request: a status and a body.

use vstd::prelude::*;

use crate::error::{AppError, Failure};
use crate::text::texts_of;

verus! {

/// The body that tells of success.
#[derive(Debug, PartialEq, Eq)]
pub struct UploadResponse {
    pub success: bool,
    /// The object keys of the images, in the order of their pages.
    pub images: Vec<String>,
}

/// The body that tells of a failure.
#[derive(Debug, PartialEq, Eq)]
pub struct ErrorResponse {
    pub message: String,
}

/// What an answer says.
#[derive(Debug, PartialEq, Eq)]
pub enum Body {
    Images(UploadResponse),
    Error(ErrorResponse),
}

/// The answer to a request.
#[derive(Debug, PartialEq, Eq)]
pub struct Response {
    /// The HTTP status.
    pub status: u16,
    pub body: Body,
}

/// An answer as contracts speak of it.
pub enum Answer {
    Images { status: u16, success: bool, images: Seq<Seq<char>> },
    Error { status: u16, message: Seq<char> },
}

impl View for Response {
    type V = Answer;

    open spec fn view(&self) -> Answer {
        match self.body {
            Body::Images(listed) => Answer::Images {
                status: self.status,
                success: listed.success,
                images: texts_of(listed.images@),
            },
            Body::Error(told) => Answer::Error { status: self.status, message: told.message@ },
        }
    }
}

/// The answer to a request that ended this way: the keys with status 200, or
/// the failure's message with the failure's status.
pub open spec fn answer_to(outcome: Result<Seq<Seq<char>>, Failure>) -> Answer {
    match outcome {
        Ok(keys) => Answer::Images { status: 200, success: true, images: keys },
        Err(failure) => Answer::Error {
            status: failure.status_code(),
            message: failure.message_text(),
        },
    }
}

/// The answer that lists the images stored.
pub fn success_response(images: Vec<String>) -> (response: Response)
    ensures
        response@ == answer_to(Ok(texts_of(images@))),
{
    Response { status: 200, body: Body::Images(UploadResponse { success: true, images }) }
}

/// The answer that tells of a failure.
pub fn failure_response(error: &AppError) -> (response: Response)
    ensures
        response@ == answer_to(Err(error@)),
{
    Response {
        status: error.status(),
        body: Body::Error(ErrorResponse { message: error.message() }),
    }
}

/// The answer to a request that ended with `outcome`.
pub fn respond(outcome: Result<Vec<String>, AppError>) -> (response: Response)
    ensures
        response@ == answer_to(
            match outcome {
                Ok(keys) => Ok(texts_of(keys@)),
                Err(error) => Err(error@),
            },
        ),
{
    match outcome {
        Ok(keys) => success_response(keys),
        Err(error) => failure_response(&error),
    }
}

} // verus!
