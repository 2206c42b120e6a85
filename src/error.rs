use vstd::prelude::*;

verus! {

/// Why a sign-in step or a protected request was refused.
#[derive(Clone, Debug, PartialEq, Eq)]
pub enum AuthError {
    /// No provider with the requested id is registered.
    ProviderNotFound,
    /// The session holds no pending authorization attempt.
    MissingSessionState,
    /// The returned `state` differs from the session's CSRF token.
    CsrfMismatch,
    /// The provider's token endpoint refused the exchange, with its error code.
    AuthorizationDenied(String),
    /// The token endpoint could not be reached.
    ProviderUnreachable,
    /// The token response carried no ID token.
    MalformedProviderResponse,
    /// The ID token failed verification.
    TokenVerificationFailed,
    /// A protected request came without a signed-in identity.
    Unauthenticated,
}

/// The HTTP status that answers each error.
pub open spec fn status_of(e: AuthError) -> u16 {
    match e {
        AuthError::ProviderNotFound => 404,
        AuthError::MissingSessionState => 400,
        AuthError::CsrfMismatch => 403,
        AuthError::AuthorizationDenied(_) => 400,
        AuthError::ProviderUnreachable => 502,
        AuthError::MalformedProviderResponse => 500,
        AuthError::TokenVerificationFailed => 403,
        AuthError::Unauthenticated => 401,
    }
}

impl AuthError {
    /// The HTTP status that answers this error.
    pub fn status_code(&self) -> (r: u16)
        ensures
            r == status_of(*self),
    {
        match self {
            AuthError::ProviderNotFound => 404,
            AuthError::MissingSessionState => 400,
            AuthError::CsrfMismatch => 403,
            AuthError::AuthorizationDenied(_) => 400,
            AuthError::ProviderUnreachable => 502,
            AuthError::MalformedProviderResponse => 500,
            AuthError::TokenVerificationFailed => 403,
            AuthError::Unauthenticated => 401,
        }
    }
}

} // verus!
