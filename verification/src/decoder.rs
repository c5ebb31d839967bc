//! Event decoder: a stateless, pure mapping from one complete text line to
//! at most one typed event.
//!
//! A line is parsed as a tagged JSON object (discriminated by its `status`
//! field) into an `APIResponse`, which is then projected onto the public
//! `GenerationYield` type. A line that does not match the schema yields no
//! event at all — the stream recovers locally and goes on. A well-formed
//! `error` event becomes a terminal failure.

use vstd::prelude::*;
use crate::events::{
    APIError,
    APIErrorModel,
    APIResponse,
    APIResponseModel,
    Delta,
    DeltaModel,
    GenerationYield,
    GenerationYieldModel,
};
use crate::json::{
    json_has_object,
    json_opt_str,
    json_str,
    json_u32,
    object_field,
    opt_str_field,
    str_field,
    u32_field,
};

verus! {

/// The `status` discriminant of the event on `line`, if the line carries one.
pub open spec fn status_of(line: Seq<u8>) -> Option<Seq<char>> {
    json_str(line, "status"@)
}

/// The `session_id` field of the event on `line`, if it is a string.
pub open spec fn session_id_of(line: Seq<u8>) -> Option<Seq<char>> {
    json_str(line, "session_id"@)
}

/// The `message` field of the event on `line`, if it is a string.
pub open spec fn message_of(line: Seq<u8>) -> Option<Seq<char>> {
    json_str(line, "message"@)
}

/// The raw event carried by `line`, if the line matches the wire schema:
/// a JSON object with a recognized `status` and that variant's required
/// fields. `resumed` is decoded as an alias of `initialized`.
pub open spec fn raw_event_of(line: Seq<u8>) -> Option<APIResponseModel> {
    match status_of(line) {
        None => None,
        Some(st) => {
            if st == "error"@ {
                match message_of(line) {
                    Some(message) => Some(APIResponseModel::Error { message }),
                    None => None,
                }
            } else if st == "initialized"@ || st == "resumed"@ {
                match session_id_of(line) {
                    Some(session_id) => Some(APIResponseModel::Initialized { session_id }),
                    None => None,
                }
            } else if st == "generating"@ {
                if json_has_object(line, "delta"@) {
                    match (json_str(line, "session"@), json_u32(line, "step"@), json_u32(
                        line,
                        "tokens"@,
                    ), json_opt_str(line, "delta"@, "text"@), json_opt_str(
                        line,
                        "delta"@,
                        "image"@,
                    )) {
                        (Some(session), Some(step), Some(tokens), Some(text), Some(image)) => Some(
                            APIResponseModel::Generating {
                                delta: DeltaModel { text, image },
                                step,
                                tokens,
                                session,
                            },
                        ),
                        _ => None,
                    }
                } else {
                    None
                }
            } else if st == "completed"@ {
                match (json_u32(line, "cost"@), json_u32(line, "cost_per_mtk"@)) {
                    (Some(cost), Some(cost_per_mtk)) => Some(
                        APIResponseModel::Completed { cost, cost_per_mtk },
                    ),
                    _ => None,
                }
            } else {
                None
            }
        },
    }
}

/// The projection of a raw event onto the consumer-facing type: `error`
/// events become terminal failures carrying the backend's message; the
/// wire-only `session` field of `generating` events is dropped.
pub open spec fn project_model(raw: APIResponseModel) -> Result<
    GenerationYieldModel,
    APIErrorModel,
> {
    match raw {
        APIResponseModel::Error { message } => Err(APIErrorModel::StreamError(message)),
        APIResponseModel::Initialized { session_id } => Ok(
            GenerationYieldModel::Session { session_id },
        ),
        APIResponseModel::Generating { delta, step, tokens, session } => Ok(
            GenerationYieldModel::Data { delta, step, tokens },
        ),
        APIResponseModel::Completed { cost, cost_per_mtk } => Ok(
            GenerationYieldModel::Billing { cost, cost_per_mtk },
        ),
    }
}

/// What decoding one line yields: nothing for a line outside the schema,
/// otherwise the projected event or the terminal failure.
pub open spec fn decode_model(line: Seq<u8>) -> Option<
    Result<GenerationYieldModel, APIErrorModel>,
> {
    match raw_event_of(line) {
        None => None,
        Some(raw) => Some(project_model(raw)),
    }
}

/// The model of one decode result.
pub open spec fn yield_result_view(r: Result<GenerationYield, APIError>) -> Result<
    GenerationYieldModel,
    APIErrorModel,
> {
    match r {
        Ok(y) => Ok(y@),
        Err(e) => Err(e@),
    }
}

/// The model of an optional decode result.
pub open spec fn decoded_view(r: Option<Result<GenerationYield, APIError>>) -> Option<
    Result<GenerationYieldModel, APIErrorModel>,
> {
    match r {
        None => None,
        Some(x) => Some(yield_result_view(x)),
    }
}

/// Whether the string `s` equals the literal `lit`.
fn is_lit(s: &String, lit: &str) -> (r: bool)
    ensures
        r == (s@ == lit@),
{
    *s == lit.to_owned()
}

/// Parses one line against the wire schema.
pub fn parse_raw(line: &[u8]) -> (r: Option<APIResponse>)
    ensures
        match r {
            Some(raw) => raw_event_of(line@) == Some(raw@),
            None => raw_event_of(line@) is None,
        },
{
    let status = match str_field(line, "status") {
        Some(s) => s,
        None => {
            return None;
        },
    };
    if is_lit(&status, "error") {
        match str_field(line, "message") {
            Some(message) => Some(APIResponse::Error { message }),
            None => None,
        }
    } else if is_lit(&status, "initialized") || is_lit(&status, "resumed") {
        match str_field(line, "session_id") {
            Some(session_id) => Some(APIResponse::Initialized { session_id }),
            None => None,
        }
    } else if is_lit(&status, "generating") {
        if object_field(line, "delta") {
            let session = str_field(line, "session");
            let step = u32_field(line, "step");
            let tokens = u32_field(line, "tokens");
            let text = opt_str_field(line, "delta", "text");
            let image = opt_str_field(line, "delta", "image");
            match (session, step, tokens, text, image) {
                (Some(session), Some(step), Some(tokens), Some(text), Some(image)) => Some(
                    APIResponse::Generating { delta: Delta { text, image }, step, tokens, session },
                ),
                _ => None,
            }
        } else {
            None
        }
    } else if is_lit(&status, "completed") {
        match (u32_field(line, "cost"), u32_field(line, "cost_per_mtk")) {
            (Some(cost), Some(cost_per_mtk)) => Some(
                APIResponse::Completed { cost, cost_per_mtk },
            ),
            _ => None,
        }
    } else {
        None
    }
}

/// Projects a raw event onto the consumer-facing type.
pub fn project(raw: APIResponse) -> (r: Result<GenerationYield, APIError>)
    ensures
        yield_result_view(r) == project_model(raw@),
{
    match raw {
        APIResponse::Error { message } => Err(APIError::StreamError(message)),
        APIResponse::Initialized { session_id } => Ok(GenerationYield::Session { session_id }),
        APIResponse::Generating { delta, step, tokens, session: _ } => Ok(
            GenerationYield::Data { delta, step, tokens },
        ),
        APIResponse::Completed { cost, cost_per_mtk } => Ok(
            GenerationYield::Billing { cost, cost_per_mtk },
        ),
    }
}

/// Decodes one line: no event for a line outside the schema, otherwise the
/// projected event, or the terminal failure for a backend-reported error.
pub fn decode(line: &[u8]) -> (r: Option<Result<GenerationYield, APIError>>)
    ensures
        decoded_view(r) == decode_model(line@),
{
    match parse_raw(line) {
        None => None,
        Some(raw) => Some(project(raw)),
    }
}

/// The decoder is stateless: what a line decodes to is a function of the
/// line alone, so decoding the same line twice yields the same event twice.
pub proof fn lemma_decode_deterministic(l1: Seq<u8>, l2: Seq<u8>)
    requires
        l1 == l2,
    ensures
        decode_model(l1) == decode_model(l2),
{
}

/// Malformed-line tolerance: a line that carries no `status` string — in
/// particular one that is not valid JSON — yields no event and no failure.
pub proof fn lemma_unparsed_line_skipped(line: Seq<u8>)
    requires
        status_of(line) is None,
    ensures
        decode_model(line) is None,
{
}

/// A line whose `status` is none of the recognized tags yields no event.
pub proof fn lemma_unknown_status_skipped(line: Seq<u8>, st: Seq<char>)
    requires
        status_of(line) == Some(st),
        st != "error"@,
        st != "initialized"@,
        st != "resumed"@,
        st != "generating"@,
        st != "completed"@,
    ensures
        decode_model(line) is None,
{
}

/// Alias handling: a `resumed` line decodes exactly as an `initialized`
/// line with the same `session_id` field.
pub proof fn lemma_resumed_alias(l1: Seq<u8>, l2: Seq<u8>)
    requires
        status_of(l1) == Some("resumed"@),
        status_of(l2) == Some("initialized"@),
        session_id_of(l1) == session_id_of(l2),
    ensures
        decode_model(l1) == decode_model(l2),
{
    reveal_strlit("resumed");
    reveal_strlit("initialized");
    reveal_strlit("error");
    assert("resumed"@.len() == 7);
    assert("initialized"@.len() == 11);
    assert("error"@.len() == 5);
    assert("resumed"@ != "error"@);
    assert("initialized"@ != "error"@);
    assert("resumed"@ != "initialized"@);
}

} // verus!
