use lighttrack_api::error::{ApiError, ErrorCode, StoreFailure};
use lighttrack_api::proximity::Proximity;

fn in_envelope(e: &ApiError) -> (String, String) {
    let body = e.body();
    let inner = body.get("error").unwrap();
    (inner.get_str("code").unwrap().to_string(), inner.get_str("message").unwrap().to_string())
}

#[test]
fn code_status_mapping_is_canonical() {
    assert_eq!(ErrorCode::BadRequest.status(), 400);
    assert_eq!(ErrorCode::Unauthorized.status(), 401);
    assert_eq!(ErrorCode::Forbidden.status(), 403);
    assert_eq!(ErrorCode::NotFound.status(), 404);
    assert_eq!(ErrorCode::Conflict.status(), 409);
    assert_eq!(ErrorCode::RateLimited.status(), 429);
    assert_eq!(ErrorCode::Overloaded.status(), 503);
    assert_eq!(ErrorCode::Timeout.status(), 504);
    assert_eq!(ErrorCode::Internal.status(), 500);
    assert_eq!(ErrorCode::Unsupported.status(), 501);
}

#[test]
fn code_wire_strings_are_stable() {
    assert_eq!(ErrorCode::BadRequest.as_str(), "bad_request");
    assert_eq!(ErrorCode::Unauthorized.as_str(), "unauthorized");
    assert_eq!(ErrorCode::Forbidden.as_str(), "forbidden");
    assert_eq!(ErrorCode::NotFound.as_str(), "not_found");
    assert_eq!(ErrorCode::Conflict.as_str(), "conflict");
    assert_eq!(ErrorCode::RateLimited.as_str(), "rate_limited");
    assert_eq!(ErrorCode::Overloaded.as_str(), "overloaded");
    assert_eq!(ErrorCode::Timeout.as_str(), "timeout");
    assert_eq!(ErrorCode::Internal.as_str(), "internal");
    assert_eq!(ErrorCode::Unsupported.as_str(), "unsupported");
    assert_eq!(in_envelope(&ApiError::not_found("x")).0, "not_found");
}

#[test]
fn unsupported_store_error_maps_to_501() {
    let api = ApiError::from_store(&StoreFailure::Unsupported("traces".into()));
    assert_eq!(api.code.status(), 501);
    let (code, message) = in_envelope(&api);
    assert_eq!(code, "unsupported");
    assert_eq!(message, "traces is not supported by this store backend");
    assert!(api.is_unsupported());
}

#[test]
fn response_is_nested_envelope_with_code_and_status() {
    let api = ApiError::not_found("event 'x' not found");
    assert_eq!(api.code.status(), 404);
    let (code, message) = in_envelope(&api);
    assert_eq!(code, "not_found");
    assert_eq!(message, "event 'x' not found");
    assert!(api.headers().is_empty());
}

#[test]
fn store_errors_collapse_to_internal() {
    let api = ApiError::from_store(&StoreFailure::Other("backend says no".into()));
    assert_eq!(api.code.status(), 500);
    let (code, message) = in_envelope(&api);
    assert_eq!(code, "internal");
    assert_eq!(message, "backend says no");
}

#[test]
fn conflict_store_error_maps_to_409() {
    let api = ApiError::from_store(&StoreFailure::Conflict("event 'abc' already exists".into()));
    assert_eq!(api.code.status(), 409);
    let (code, message) = in_envelope(&api);
    assert_eq!(code, "conflict");
    assert_eq!(message, "event 'abc' already exists");
}

#[test]
fn a_limit_rejection_carries_its_wait_and_its_position() {
    let mut p = Proximity::none();
    p.retry_after_secs = Some(30);
    let e = ApiError::rate_limited("over").retry_after(Some(30)).proximity(p);
    let h: Vec<(String, String)> = e.headers().into_iter().map(|h| (h.name, h.value)).collect();
    assert_eq!(
        h,
        vec![
            ("x-lighttrack-retry-after".to_string(), "30".to_string()),
            ("retry-after".to_string(), "30".to_string()),
        ]
    );
    assert_eq!(e.to_text(), "rate_limited: over");
}

#[test]
fn every_constructor_has_its_own_code() {
    let made = [
        (ApiError::internal("m").code, ErrorCode::Internal),
        (ApiError::bad_request("m").code, ErrorCode::BadRequest),
        (ApiError::unauthorized("m").code, ErrorCode::Unauthorized),
        (ApiError::key_expired("m").code, ErrorCode::KeyExpired),
        (ApiError::forbidden("m").code, ErrorCode::Forbidden),
        (ApiError::project_disabled("m").code, ErrorCode::ProjectDisabled),
        (ApiError::not_found("m").code, ErrorCode::NotFound),
        (ApiError::conflict("m").code, ErrorCode::Conflict),
        (ApiError::relay_unroutable("m").code, ErrorCode::RelayUnroutable),
        (ApiError::rate_limited("m").code, ErrorCode::RateLimited),
    ];
    for (got, want) in made {
        assert_eq!(got, want);
    }
    let all = [
        ErrorCode::BadRequest,
        ErrorCode::TsTooOld,
        ErrorCode::TsTooNew,
        ErrorCode::Unauthorized,
        ErrorCode::KeyExpired,
        ErrorCode::Forbidden,
        ErrorCode::ProjectDisabled,
        ErrorCode::NotFound,
        ErrorCode::Conflict,
        ErrorCode::RelayUnroutable,
        ErrorCode::RateLimited,
        ErrorCode::Overloaded,
        ErrorCode::Timeout,
        ErrorCode::Internal,
        ErrorCode::Unsupported,
    ];
    for (i, a) in all.iter().enumerate() {
        for b in &all[i + 1..] {
            assert_ne!(a.as_str(), b.as_str());
        }
    }
}
