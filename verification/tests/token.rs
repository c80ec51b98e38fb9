use auth_service::{AuthError, TokenVerifier, VerifyTokenRequest};

#[test]
fn verify_rejects_empty_token() {
    assert_eq!(TokenVerifier::verify(""), Err(AuthError::InvalidToken));
}

#[test]
fn verify_accepts_any_nonempty_token() {
    assert_eq!(TokenVerifier::verify("valid_token_string"), Ok(()));
    assert_eq!(TokenVerifier::verify("anything"), Ok(()));
    assert_eq!(TokenVerifier::verify(" "), Ok(()));
    assert_eq!(TokenVerifier::verify("123"), Ok(()));
}

#[test]
fn request_carries_an_opaque_token() {
    let request = VerifyTokenRequest {
        token: "abc".to_string(),
    };
    assert_eq!(TokenVerifier::verify(&request.token), Ok(()));

    let empty = VerifyTokenRequest {
        token: String::new(),
    };
    assert_eq!(TokenVerifier::verify(&empty.token), Err(AuthError::InvalidToken));
}
