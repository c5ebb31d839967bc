//! Request validation: the checks and defaults applied before any stream is
//! opened. Precondition failures are reported here, synchronously, and never
//! inside the stream.

use vstd::prelude::*;
use crate::events::APIError;

verus! {

/// The characters of an optional string.
pub open spec fn opt_view(o: Option<String>) -> Option<Seq<char>> {
    match o {
        Some(s) => Some(s@),
        None => None,
    }
}

/// `s` without its trailing `/` characters.
pub open spec fn without_trailing_slashes(s: Seq<char>) -> Seq<char>
    decreases s.len(),
{
    if s.len() > 0 && s.last() == '/' {
        without_trailing_slashes(s.drop_last())
    } else {
        s
    }
}

/// Cleans a base URL so that a path can be appended to it: removes the
/// trailing slashes.
pub fn normalize_base_url(base_url: &str) -> (r: String)
    ensures
        r@ == without_trailing_slashes(base_url@),
{
    let len = base_url.unicode_len();
    let mut end = len;
    proof {
        assert(base_url@.take(len as int) =~= base_url@);
    }
    while end > 0 && base_url.get_char(end - 1) == '/'
        invariant
            end <= base_url@.len(),
            without_trailing_slashes(base_url@) == without_trailing_slashes(
                base_url@.take(end as int),
            ),
        decreases end,
    {
        proof {
            assert(base_url@.take(end as int).drop_last() =~= base_url@.take(end as int - 1));
        }
        end -= 1;
    }
    proof {
        assert(without_trailing_slashes(base_url@) == base_url@.take(end as int));
    }
    let cut = base_url.substring_char(0, end);
    proof {
        assert(cut@ =~= base_url@.take(end as int));
    }
    cut.to_owned()
}

/// Whether a request starts a new session or resumes an existing one.
#[derive(Clone, Copy, Debug, PartialEq, Eq, Structural)]
pub enum SessionKind {
    New,
    Resume,
}

/// A validated request, ready to be carried to the backend: all defaults
/// filled in, and the new-versus-resume decision made.
#[derive(Clone, Debug, PartialEq)]
pub struct RequestPlan {
    pub kind: SessionKind,
    pub input: String,
    pub image: Option<String>,
    pub role: String,
    pub max_tokens: u32,
    pub timeout: u32,
    pub session_id: Option<String>,
    pub model_id: Option<String>,
}

/// Validates one generation request.
///
/// The key, the prompt and the base URL must be non-empty; a new session
/// (no `session_id`) must name a `model_id`; a resumed session carries its
/// `session_id` and drops any `model_id`. The role defaults to `user`.
pub fn plan_request(
    api_key: &str,
    base_url: &str,
    prompt: String,
    img: Option<String>,
    role: Option<String>,
    max_tokens: u32,
    timeout: u32,
    session_id: Option<String>,
    model_id: Option<String>,
) -> (r: Result<RequestPlan, APIError>)
    ensures
        api_key@.len() == 0 || prompt@.len() == 0 || base_url@.len() == 0 ==> r == Err::<
            RequestPlan,
            APIError,
        >(APIError::MissingCredentials),
        api_key@.len() > 0 && prompt@.len() > 0 && base_url@.len() > 0 && session_id is None
            && model_id is None ==> r == Err::<RequestPlan, APIError>(APIError::MissingModelId),
        api_key@.len() > 0 && prompt@.len() > 0 && base_url@.len() > 0 && (session_id is Some
            || model_id is Some) ==> (r matches Ok(plan) && {
            &&& plan.input@ == prompt@
            &&& opt_view(plan.image) == opt_view(img)
            &&& plan.max_tokens == max_tokens
            &&& plan.timeout == timeout
            &&& (match role {
                Some(given) => plan.role@ == given@,
                None => plan.role@ == "user"@,
            })
            &&& (session_id matches Some(id) ==> plan.kind == SessionKind::Resume && opt_view(
                plan.session_id,
            ) == Some(id@) && plan.model_id is None)
            &&& (session_id is None ==> plan.kind == SessionKind::New && plan.session_id is None
                && opt_view(plan.model_id) == opt_view(model_id))
        }),
{
    if api_key.is_empty() || prompt.as_str().is_empty() || base_url.is_empty() {
        return Err(APIError::MissingCredentials);
    }
    let role_value = match role {
        Some(given) => given,
        None => "user".to_owned(),
    };
    match session_id {
        Some(id) => Ok(
            RequestPlan {
                kind: SessionKind::Resume,
                input: prompt,
                image: img,
                role: role_value,
                max_tokens,
                timeout,
                session_id: Some(id),
                model_id: None,
            },
        ),
        None => {
            if model_id.is_none() {
                return Err(APIError::MissingModelId);
            }
            Ok(
                RequestPlan {
                    kind: SessionKind::New,
                    input: prompt,
                    image: img,
                    role: role_value,
                    max_tokens,
                    timeout,
                    session_id: None,
                    model_id,
                },
            )
        },
    }
}

} // verus!
