use sintelli::events::APIError;
use sintelli::request::{normalize_base_url, plan_request, RequestPlan, SessionKind};

fn plan_ok(
    api_key: &str,
    base_url: &str,
    prompt: &str,
    session_id: Option<&str>,
    model_id: Option<&str>,
) -> Result<RequestPlan, APIError> {
    plan_request(
        api_key,
        base_url,
        prompt.to_owned(),
        None,
        None,
        512,
        60,
        session_id.map(str::to_owned),
        model_id.map(str::to_owned),
    )
}

#[test]
fn missing_credentials_rejected() {
    assert_eq!(
        plan_ok("", "https://b", "p", None, Some("m")),
        Err(APIError::MissingCredentials)
    );
    assert_eq!(
        plan_ok("k", "", "p", None, Some("m")),
        Err(APIError::MissingCredentials)
    );
    assert_eq!(
        plan_ok("k", "https://b", "", None, Some("m")),
        Err(APIError::MissingCredentials)
    );
}

#[test]
fn new_session_requires_model_id() {
    assert_eq!(
        plan_ok("k", "https://b", "p", None, None),
        Err(APIError::MissingModelId)
    );
}

#[test]
fn new_session_plan() {
    let plan = plan_ok("k", "https://b", "p", None, Some("m")).unwrap();
    assert_eq!(plan.kind, SessionKind::New);
    assert_eq!(plan.input, "p");
    assert_eq!(plan.role, "user");
    assert_eq!(plan.session_id, None);
    assert_eq!(plan.model_id.as_deref(), Some("m"));
    assert_eq!(plan.max_tokens, 512);
    assert_eq!(plan.timeout, 60);
}

#[test]
fn resumed_session_drops_model_id() {
    let plan = plan_ok("k", "https://b", "p", Some("s-9"), Some("m")).unwrap();
    assert_eq!(plan.kind, SessionKind::Resume);
    assert_eq!(plan.session_id.as_deref(), Some("s-9"));
    assert_eq!(plan.model_id, None);
}

#[test]
fn explicit_role_is_kept() {
    let plan = plan_request(
        "k",
        "https://b",
        "p".to_owned(),
        Some("aW1n".to_owned()),
        Some("system".to_owned()),
        1,
        2,
        None,
        Some("m".to_owned()),
    )
    .unwrap();
    assert_eq!(plan.role, "system");
    assert_eq!(plan.image.as_deref(), Some("aW1n"));
}

#[test]
fn base_url_normalization() {
    assert_eq!(normalize_base_url("https://b.example/"), "https://b.example");
    assert_eq!(normalize_base_url("https://b.example///"), "https://b.example");
    assert_eq!(normalize_base_url("https://b.example"), "https://b.example");
    assert_eq!(normalize_base_url(""), "");
}
