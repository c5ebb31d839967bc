//! The domain types of the stream: the wire-level tagged union, the public
//! projected event type, the error type, and their mathematical models.

use vstd::prelude::*;

verus! {

/// Text and/or image data carried by one generation step.
/// `image` holds a base64-encoded image string.
#[derive(Debug, Clone, PartialEq)]
pub struct Delta {
    pub text: Option<String>,
    pub image: Option<String>,
}

/// Mathematical model of a `Delta`: both fields as character sequences.
pub struct DeltaModel {
    pub text: Option<Seq<char>>,
    pub image: Option<Seq<char>>,
}

impl View for Delta {
    type V = DeltaModel;

    open spec fn view(&self) -> DeltaModel {
        DeltaModel {
            text: match self.text {
                Some(t) => Some(t@),
                None => None,
            },
            image: match self.image {
                Some(m) => Some(m@),
                None => None,
            },
        }
    }
}

/// The wire-level tagged union: one backend event, as one JSON object per
/// line, discriminated by its `status` field. A line whose `status` is
/// `resumed` is an alias for `Initialized`.
#[derive(Debug, Clone, PartialEq)]
pub enum APIResponse {
    Initialized { session_id: String },
    Generating { delta: Delta, step: u32, tokens: u32, session: String },
    Completed { cost: u32, cost_per_mtk: u32 },
    Error { message: String },
}

/// Mathematical model of an `APIResponse`.
pub enum APIResponseModel {
    Initialized { session_id: Seq<char> },
    Generating { delta: DeltaModel, step: u32, tokens: u32, session: Seq<char> },
    Completed { cost: u32, cost_per_mtk: u32 },
    Error { message: Seq<char> },
}

impl View for APIResponse {
    type V = APIResponseModel;

    open spec fn view(&self) -> APIResponseModel {
        match self {
            APIResponse::Initialized { session_id } => APIResponseModel::Initialized {
                session_id: session_id@,
            },
            APIResponse::Generating { delta, step, tokens, session } => {
                APIResponseModel::Generating {
                    delta: delta@,
                    step: *step,
                    tokens: *tokens,
                    session: session@,
                }
            },
            APIResponse::Completed { cost, cost_per_mtk } => APIResponseModel::Completed {
                cost: *cost,
                cost_per_mtk: *cost_per_mtk,
            },
            APIResponse::Error { message } => APIResponseModel::Error { message: message@ },
        }
    }
}

/// The event type handed to consumers: the projection of an `APIResponse`
/// that drops the wire-only `session` field and turns a backend `Error`
/// into a terminal failure instead of an event.
#[derive(Debug, Clone, PartialEq)]
pub enum GenerationYield {
    Data { delta: Delta, step: u32, tokens: u32 },
    Session { session_id: String },
    Billing { cost: u32, cost_per_mtk: u32 },
}

/// Mathematical model of a `GenerationYield`.
pub enum GenerationYieldModel {
    Data { delta: DeltaModel, step: u32, tokens: u32 },
    Session { session_id: Seq<char> },
    Billing { cost: u32, cost_per_mtk: u32 },
}

impl View for GenerationYield {
    type V = GenerationYieldModel;

    open spec fn view(&self) -> GenerationYieldModel {
        match self {
            GenerationYield::Data { delta, step, tokens } => GenerationYieldModel::Data {
                delta: delta@,
                step: *step,
                tokens: *tokens,
            },
            GenerationYield::Session { session_id } => GenerationYieldModel::Session {
                session_id: session_id@,
            },
            GenerationYield::Billing { cost, cost_per_mtk } => GenerationYieldModel::Billing {
                cost: *cost,
                cost_per_mtk: *cost_per_mtk,
            },
        }
    }
}

/// The failures a generation request can end in. Transport-level detail is
/// carried as plain text; the surrounding application turns its own
/// transport errors into these.
#[derive(Debug, Clone, PartialEq)]
pub enum APIError {
    /// API key, prompt, or base URL is missing.
    MissingCredentials,
    /// `model_id` is required for a new session.
    MissingModelId,
    /// The HTTP request itself failed; carries the transport's message.
    RequestError(String),
    /// The API answered with an error status code and a response body.
    ApiServerError(u16, String),
    /// A JSON payload could not be built or read; carries the message.
    JsonParseError(String),
    /// The backend reported an error event; carries the backend's message.
    StreamError(String),
}

/// Mathematical model of an `APIError`.
pub enum APIErrorModel {
    MissingCredentials,
    MissingModelId,
    RequestError(Seq<char>),
    ApiServerError(u16, Seq<char>),
    JsonParseError(Seq<char>),
    StreamError(Seq<char>),
}

impl View for APIError {
    type V = APIErrorModel;

    open spec fn view(&self) -> APIErrorModel {
        match self {
            APIError::MissingCredentials => APIErrorModel::MissingCredentials,
            APIError::MissingModelId => APIErrorModel::MissingModelId,
            APIError::RequestError(m) => APIErrorModel::RequestError(m@),
            APIError::ApiServerError(c, m) => APIErrorModel::ApiServerError(*c, m@),
            APIError::JsonParseError(m) => APIErrorModel::JsonParseError(m@),
            APIError::StreamError(m) => APIErrorModel::StreamError(m@),
        }
    }
}

} // verus!
