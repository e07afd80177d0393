//! The course of one request.
//!
//! A request passes the access gate, has its file read and its parameters
//! resolved, has its pages rendered, has the images stored, and is answered.
//! Reading the file, rendering and storing are the caller's work. After each
//! piece of it the caller reports what came of it and is told what to do
//! next. The first failure ends the request with its answer, and nothing
//! more is asked for. Storing alone is always seen through: its outcomes are
//! judged when all of them are in.

use vstd::prelude::*;

use crate::error::{AppError, Failure};
use crate::format::OutputFormat;
use crate::gate::{admitted, authorize};
use crate::render::{image_views, resolved, Parameters, RenderParameters, RenderedImage};
use crate::response::{answer_to, failure_response, success_response, Answer, Response};
use crate::text::{as_text, string_of, text_of};
use crate::upload::{collect_uploads, outcome_views, upload_result, Outcome, UploadOutcome};

verus! {

/// The parameters that come with a request.
#[derive(Debug)]
pub struct Query {
    pub format: OutputFormat,
    /// The token that is held against the secret.
    pub token: Option<String>,
    /// The page expression.
    pub pages: Option<String>,
    /// The bit pattern of the scale factor.
    pub scale: Option<u32>,
}

/// How far a request has come.
#[derive(Clone, Copy, Debug, PartialEq, Eq, Structural)]
pub enum Stage {
    /// The request is admitted; the file is not read yet.
    Gated,
    /// The file is read and the parameters are resolved; the pages are not rendered yet.
    Parsed,
    /// Every page was attempted; the images are not stored yet.
    Rendered,
    /// Every attempt to store an image has ended; the answer is not sent yet.
    Uploaded,
    /// The answer is sent.
    Responded,
    /// The request failed and is answered with its failure.
    Failed,
}

/// What the caller is to do next.
#[derive(Debug)]
pub enum Action {
    /// Read the first field of the form.
    ReadFile,
    /// Load the document and render its pages, away from the tasks that wait
    /// on the network.
    Render { content: Vec<u8>, parameters: RenderParameters },
    /// Store every image under its name, all at once, and wait for all.
    Upload { images: Vec<RenderedImage> },
    /// Write `log` to the log, if there is one, then send the answer. A
    /// failure is logged with its full account; success is not logged.
    Respond { response: Response, log: Option<String> },
}

/// An action as contracts speak of it.
pub enum Order {
    ReadFile,
    Render { content: Seq<u8>, parameters: Parameters },
    Upload { images: Seq<(Seq<char>, Seq<u8>)> },
    Respond { answer: Answer, log: Option<Seq<char>> },
}

impl View for Action {
    type V = Order;

    open spec fn view(&self) -> Order {
        match self {
            Action::ReadFile => Order::ReadFile,
            Action::Render { content, parameters } => Order::Render {
                content: content@,
                parameters: parameters@,
            },
            Action::Upload { images } => Order::Upload { images: image_views(images@) },
            Action::Respond { response, log } => Order::Respond {
                answer: response@,
                log: string_of(*log),
            },
        }
    }
}

/// A request as contracts speak of it: its stage, and what it holds for the
/// stages to come.
pub enum State {
    Gated { format: OutputFormat, pages: Option<Seq<char>>, scale: Option<u32> },
    Parsed,
    Rendered { images: nat },
    Uploaded,
    Responded,
    Failed,
}

/// A request on its way.
#[derive(Debug)]
pub struct Request {
    stage: Stage,
    format: OutputFormat,
    pages: Option<String>,
    scale: Option<u32>,
    images: usize,
}

impl View for Request {
    type V = State;

    closed spec fn view(&self) -> State {
        match self.stage {
            Stage::Gated => State::Gated {
                format: self.format,
                pages: string_of(self.pages),
                scale: self.scale,
            },
            Stage::Parsed => State::Parsed,
            Stage::Rendered => State::Rendered { images: self.images as nat },
            Stage::Uploaded => State::Uploaded,
            Stage::Responded => State::Responded,
            Stage::Failed => State::Failed,
        }
    }
}

/// The stage of a state.
pub open spec fn stage_of(state: State) -> Stage {
    match state {
        State::Gated { .. } => Stage::Gated,
        State::Parsed => Stage::Parsed,
        State::Rendered { .. } => Stage::Rendered,
        State::Uploaded => Stage::Uploaded,
        State::Responded => Stage::Responded,
        State::Failed => Stage::Failed,
    }
}

/// The answer to a request that ended this way, and what is logged with it.
pub open spec fn answered(outcome: Result<Seq<Seq<char>>, Failure>) -> Order {
    Order::Respond {
        answer: answer_to(outcome),
        log: match outcome {
            Ok(_) => None,
            Err(failure) => Some(failure.description()),
        },
    }
}

/// A request ends with `failure`: it is answered, and nothing else is done.
pub open spec fn failed(failure: Failure) -> (State, Order) {
    (State::Failed, answered(Err(failure)))
}

/// A request arrives: it is admitted, or is refused before its file is read.
pub open spec fn opened(
    secret: Option<Seq<char>>,
    format: OutputFormat,
    token: Option<Seq<char>>,
    pages: Option<Seq<char>>,
    scale: Option<u32>,
) -> (State, Order) {
    if admitted(secret, token) {
        (State::Gated { format, pages, scale }, Order::ReadFile)
    } else {
        failed(Failure::Unauthorized)
    }
}

/// The form was read and held `file` as its first field, or no field: with a
/// file and parameters that resolve, the pages are to be rendered.
pub open spec fn after_file(
    format: OutputFormat,
    pages: Option<Seq<char>>,
    scale: Option<u32>,
    file: Option<Seq<u8>>,
) -> (State, Order) {
    match file {
        None => failed(Failure::FieldNotFound),
        Some(content) => match resolved(format, pages, scale) {
            Err(failure) => failed(failure),
            Ok(parameters) => (State::Parsed, Order::Render { content, parameters }),
        },
    }
}

/// The rendering ended: its images are to be stored, or its failure ends the request.
pub open spec fn after_rendering(result: Result<Seq<(Seq<char>, Seq<u8>)>, Failure>) -> (
    State,
    Order,
) {
    match result {
        Err(failure) => failed(failure),
        Ok(images) => (State::Rendered { images: images.len() }, Order::Upload { images }),
    }
}

/// Every attempt to store an image has ended: the answer lists the keys, or
/// tells of the failure.
pub open spec fn after_uploads(outcomes: Seq<Outcome>) -> (State, Order) {
    (State::Uploaded, answered(upload_result(outcomes)))
}

/// What a rendering gave, as contracts speak of it.
pub open spec fn rendering_view(result: Result<Vec<RenderedImage>, AppError>) -> Result<
    Seq<(Seq<char>, Seq<u8>)>,
    Failure,
> {
    match result {
        Ok(images) => Ok(image_views(images@)),
        Err(error) => Err(error@),
    }
}

/// The bytes of a file that may be absent.
pub open spec fn file_view(file: Option<Vec<u8>>) -> Option<Seq<u8>> {
    match file {
        None => None,
        Some(content) => Some(content@),
    }
}

impl Request {
    fn at(stage: Stage) -> (request: Request)
        requires
            stage != Stage::Gated && stage != Stage::Rendered,
        ensures
            stage_of(request@) == stage,
    {
        Request { stage, format: OutputFormat::Png, pages: None, scale: None, images: 0 }
    }

    fn fail(error: AppError) -> (next: (Request, Action))
        ensures
            (next.0@, next.1@) == failed(error@),
    {
        (
            Request::at(Stage::Failed),
            Action::Respond { response: failure_response(&error), log: Some(error.describe()) },
        )
    }

    /// Takes a request in: `secret` is the secret configured, if any.
    pub fn open(secret: Option<&str>, query: Query) -> (next: (Request, Action))
        ensures
            (next.0@, next.1@) == opened(
                text_of(secret),
                query.format,
                string_of(query.token),
                string_of(query.pages),
                query.scale,
            ),
    {
        match authorize(secret, as_text(&query.token)) {
            Err(error) => Request::fail(error),
            Ok(()) => (
                Request {
                    stage: Stage::Gated,
                    format: query.format,
                    pages: query.pages,
                    scale: query.scale,
                    images: 0,
                },
                Action::ReadFile,
            ),
        }
    }

    /// How far the request has come.
    pub fn stage(&self) -> (stage: Stage)
        ensures
            stage == stage_of(self@),
    {
        self.stage
    }

    /// The form was read: `file` is its first field, if it has a field.
    pub fn file_read(self, file: Option<Vec<u8>>) -> (next: (Request, Action))
        requires
            self@ is Gated,
        ensures
            self@ matches State::Gated { format, pages, scale } && (next.0@, next.1@) == after_file(
                format,
                pages,
                scale,
                file_view(file),
            ),
    {
        let content = match file {
            None => {
                return Request::fail(AppError::FieldNotFound);
            },
            Some(content) => content,
        };
        match RenderParameters::resolve(self.format, as_text(&self.pages), self.scale) {
            Err(error) => Request::fail(error),
            Ok(parameters) => (Request::at(Stage::Parsed), Action::Render { content, parameters }),
        }
    }

    /// The form could not be read.
    pub fn form_failed(self, cause: String) -> (next: (Request, Action))
        requires
            self@ is Gated,
        ensures
            (next.0@, next.1@) == failed(Failure::Multipart(cause@)),
    {
        Request::fail(AppError::Multipart(cause))
    }

    /// The rendering ended, with the images of the pages or with a failure.
    pub fn rendered(self, result: Result<Vec<RenderedImage>, AppError>) -> (next: (
        Request,
        Action,
    ))
        requires
            self@ is Parsed,
        ensures
            (next.0@, next.1@) == after_rendering(rendering_view(result)),
    {
        match result {
            Err(error) => Request::fail(error),
            Ok(images) => (
                Request {
                    stage: Stage::Rendered,
                    format: self.format,
                    pages: None,
                    scale: None,
                    images: images.len(),
                },
                Action::Upload { images },
            ),
        }
    }

    /// Every attempt to store an image has ended: `outcomes` holds one
    /// outcome for each image, in the order of the images.
    pub fn uploaded(self, outcomes: Vec<UploadOutcome>) -> (next: (Request, Action))
        requires
            self@ matches State::Rendered { images } && outcomes@.len() == images,
        ensures
            (next.0@, next.1@) == after_uploads(outcome_views(outcomes@)),
    {
        let action = match collect_uploads(outcomes) {
            Ok(keys) => Action::Respond { response: success_response(keys), log: None },
            Err(error) => Action::Respond {
                response: failure_response(&error),
                log: Some(error.describe()),
            },
        };
        (Request::at(Stage::Uploaded), action)
    }

    /// The answer was sent.
    pub fn responded(self) -> (next: Request)
        requires
            self@ is Uploaded,
        ensures
            next@ is Responded,
    {
        Request::at(Stage::Responded)
    }

    /// Whether the request waits for as many outcomes as `count`: as many as
    /// it has images to store.
    pub fn awaits_outcomes(&self, count: usize) -> (awaited: bool)
        ensures
            awaited == (self@ matches State::Rendered { images } && count == images),
    {
        match self.stage {
            Stage::Rendered => self.images == count,
            _ => false,
        }
    }
}

} // verus!
