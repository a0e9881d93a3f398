//! The decisions the authentication middlewares make, separated from the
//! HTTP machinery that carries them out.

use vstd::prelude::*;

use crate::auth::AuthError;
use crate::auth::Claims;

verus! {

/// Shared-secret authentication: requests carry the secret as their
/// bearer token.
pub struct SecretAuth {
    pub secret: String,
}

impl Clone for SecretAuth {
    fn clone(&self) -> (r: SecretAuth)
        ensures
            r == *self,
    {
        SecretAuth { secret: self.secret.clone() }
    }
}

impl SecretAuth {
    pub fn new(secret: String) -> (r: SecretAuth)
        ensures
            r.secret == secret,
    {
        SecretAuth { secret }
    }

    /// Whether the presented bearer token, if any, equals the secret.
    pub fn authorize(&self, token: Option<&String>) -> (r: bool)
        ensures
            r == (token matches Some(t) && t@ == self.secret@),
    {
        match token {
            Some(t) => *t == self.secret,
            None => false,
        }
    }
}

/// What the token middleware decides for a request.
pub enum AuthDecision {
    /// The token verified: the request proceeds carrying these claims.
    Authenticated(Claims),
    /// The request proceeds without an identity.
    Anonymous,
    /// The presented token was refused for this reason.
    DeniedInvalid(AuthError),
    /// No token was presented where one is required.
    DeniedMissing,
}

/// Decides a request from the token verification's outcome: a verified
/// token authenticates the request; a refused or missing token is denied
/// where authentication is required and lets the request pass anonymously
/// where it is not.  The outcome is absent exactly when no token was
/// presented.
pub fn auth_decision(
    require_auth: bool,
    outcome: Option<Result<Claims, AuthError>>,
) -> (r: AuthDecision)
    ensures
        match outcome {
            Some(Ok(claims)) => r == AuthDecision::Authenticated(claims),
            Some(Err(e)) => r == if require_auth {
                AuthDecision::DeniedInvalid(e)
            } else {
                AuthDecision::Anonymous
            },
            None => r == if require_auth {
                AuthDecision::DeniedMissing
            } else {
                AuthDecision::Anonymous
            },
        },
{
    match outcome {
        Some(Ok(claims)) => AuthDecision::Authenticated(claims),
        Some(Err(e)) => {
            if require_auth {
                AuthDecision::DeniedInvalid(e)
            } else {
                AuthDecision::Anonymous
            }
        },
        None => {
            if require_auth {
                AuthDecision::DeniedMissing
            } else {
                AuthDecision::Anonymous
            }
        },
    }
}

} // verus!
