use atuin_common::error::ServiceError;

#[test]
fn every_error_surfaces_a_reason() {
    assert_eq!(ServiceError::Unauthorized.to_response().reason, "unauthorized");
    assert_eq!(
        ServiceError::Conflict.to_response().reason,
        "username or email already in use"
    );
    assert_eq!(ServiceError::InvalidInput.to_response().reason, "invalid request");
    assert_eq!(ServiceError::NotFound.to_response().reason, "not found");
    assert_eq!(
        ServiceError::Fatal.to_response().reason,
        "home directory environment variable not set"
    );
}
