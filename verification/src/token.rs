//! Token verification: deciding whether a presented token is acceptable.

use vstd::prelude::*;
use crate::domain::AuthError;

verus! {

/// What `verify` returns for a token with the given characters: rejection
/// exactly on emptiness, acceptance of any non-empty token regardless of
/// content. Deliberately weak current semantics, stated precisely.
pub open spec fn verify_result(token: Seq<char>) -> Result<(), AuthError> {
    if token.len() == 0 {
        Err(AuthError::InvalidToken)
    } else {
        Ok(())
    }
}

/// The body shape the token-verification endpoint accepts: an opaque token
/// string with no internal structure enforced by the core. The boundary
/// layer deserializes a request into this shape before invoking
/// [`TokenVerifier`]; a body of any other shape never reaches the core.
pub struct VerifyTokenRequest {
    pub token: String,
}

/// Decides whether a presented token is acceptable. The current check is a
/// presence check; structured claims, signature and expiry checks are future
/// extensions, which is why rejection carries a member of the closed
/// [`AuthError`] taxonomy rather than a mere boolean.
pub struct TokenVerifier;

impl TokenVerifier {
    /// Fails with `InvalidToken` if and only if the token is empty;
    /// otherwise succeeds with no value.
    pub fn verify(token: &str) -> (result: Result<(), AuthError>)
        ensures
            result == verify_result(token@),
            result == Err::<(), AuthError>(AuthError::InvalidToken) <==> token@.len() == 0,
            result == Ok::<(), AuthError>(()) <==> token@.len() != 0,
    {
        if token.is_empty() {
            Err(AuthError::InvalidToken)
        } else {
            Ok(())
        }
    }
}

} // verus!
