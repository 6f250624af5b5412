use walmart_goback_backend::app_error::{InternalServerError, RepoError};
use walmart_goback_backend::server::ServerResponse;

#[test]
fn success_wraps_payload_with_ok_status() {
    let resp = ServerResponse::success(7_i64);
    assert_eq!(resp.message, "success");
    assert_eq!(resp.data, 7);
    assert_eq!(resp.status_code, 200);
}

#[test]
fn success_code_carries_the_given_status() {
    let resp = ServerResponse::success_code(true, 201);
    assert_eq!(resp.message, "success");
    assert!(resp.data);
    assert_eq!(resp.status_code, 201);
}

#[test]
fn error_wraps_message_with_internal_status() {
    let resp = ServerResponse::error(String::from("boom"));
    assert_eq!(resp.message, "boom");
    assert_eq!(resp.status_code, 500);
}

#[test]
fn not_found_envelope_is_distinguishable_from_internal() {
    let not_found = InternalServerError(RepoError::NotFound).to_envelope();
    assert_eq!(not_found.status_code, 404);
    assert_eq!(not_found.message, "not found");
    let internal = InternalServerError(RepoError::StoreUnavailable).to_envelope();
    assert_eq!(internal.status_code, 500);
    assert_eq!(internal.message, "store unavailable");
    let from_repo = InternalServerError::from(RepoError::Unclassified);
    assert_eq!(from_repo.0, RepoError::Unclassified);
}
