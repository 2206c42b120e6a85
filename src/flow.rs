use vstd::prelude::*;

use crate::error::AuthError;
use crate::registry::{opt_view, OIDCProviders};
use crate::session::{signed_in, with_attempt, CurrentUser, SessionState, SessionView};
use crate::users::{directory_wf, reconciled, ProfilePolicy, UserDirectory};

verus! {

/// The claims taken from a verified ID token.
pub struct IdClaims {
    pub subject: String,
    pub name: Option<String>,
    pub email: Option<String>,
}

/// How the code exchange and the ID token check ended.
pub enum ExchangeOutcome {
    /// The token endpoint answered with an OAuth error code.
    Denied(String),
    /// The token endpoint could not be reached.
    Unreachable,
    /// The token response carried no ID token.
    MissingIdToken,
    /// The ID token failed its signature, issuer, expiry or nonce check.
    VerificationFailed,
    /// The ID token was verified; these are its claims.
    Verified(IdClaims),
}

/// The gates of a callback before any request to the provider: the provider
/// must be registered, the session must hold a pending attempt, and the
/// returned `state` must equal its CSRF token. Passing yields the nonce.
pub open spec fn callback_gate(
    provider_known: bool,
    s: SessionView,
    returned_state: Seq<char>,
) -> Result<Seq<char>, AuthError> {
    if !provider_known {
        Err(AuthError::ProviderNotFound)
    } else {
        match (s.csrf_token, s.nonce) {
            (Some(csrf), Some(nonce)) => if csrf == returned_state {
                Ok(nonce)
            } else {
                Err(AuthError::CsrfMismatch)
            },
            _ => Err(AuthError::MissingSessionState),
        }
    }
}

/// The claims of a verified exchange, or the error each other ending gives.
pub open spec fn exchange_result(o: ExchangeOutcome) -> Result<IdClaims, AuthError> {
    match o {
        ExchangeOutcome::Denied(code) => Err(AuthError::AuthorizationDenied(code)),
        ExchangeOutcome::Unreachable => Err(AuthError::ProviderUnreachable),
        ExchangeOutcome::MissingIdToken => Err(AuthError::MalformedProviderResponse),
        ExchangeOutcome::VerificationFailed => Err(AuthError::TokenVerificationFailed),
        ExchangeOutcome::Verified(c) => Ok(c),
    }
}

/// Starts an authorization attempt at `provider_id`: `csrf` and `nonce` go
/// into the session, overwriting a pending attempt. An unknown provider gives
/// `ProviderNotFound` and leaves the session as it was.
pub fn initiate<C>(
    registry: &OIDCProviders<C>,
    provider_id: &str,
    csrf: String,
    nonce: String,
    session: &mut SessionState,
) -> (r: Result<(), AuthError>)
    ensures
        r is Ok <==> registry.has(provider_id@),
        r is Ok ==> final(session)@ == with_attempt(old(session)@, csrf@, nonce@),
        r matches Err(e) ==> e == AuthError::ProviderNotFound && final(session)@ == old(session)@,
{
    match registry.lookup(provider_id) {
        Some(_) => {
            session.begin_attempt(csrf, nonce);
            Ok(())
        },
        None => Err(AuthError::ProviderNotFound),
    }
}

/// Checks a callback before the code is exchanged and returns the nonce that
/// the ID token must carry. Reads the session and changes nothing.
pub fn check_callback<C>(
    registry: &OIDCProviders<C>,
    provider_id: &str,
    returned_state: &str,
    session: &SessionState,
) -> (r: Result<String, AuthError>)
    ensures
        match (r, callback_gate(registry.has(provider_id@), session@, returned_state@)) {
            (Ok(n), Ok(m)) => n@ == m,
            (Err(e), Err(f)) => e == f,
            _ => false,
        },
{
    if registry.lookup(provider_id).is_none() {
        return Err(AuthError::ProviderNotFound);
    }
    match (&session.csrf_token, &session.nonce) {
        (Some(csrf), Some(nonce)) => {
            if crate::text::same_text(csrf.as_str(), returned_state) {
                Ok(nonce.clone())
            } else {
                Err(AuthError::CsrfMismatch)
            }
        },
        _ => Err(AuthError::MissingSessionState),
    }
}

/// The claims of a verified exchange, or the error for each other ending:
/// a denial carries the provider's code; an unreachable endpoint is
/// `ProviderUnreachable`; no ID token is `MalformedProviderResponse`; a failed
/// check is `TokenVerificationFailed`.
pub fn claims_from_exchange(o: ExchangeOutcome) -> (r: Result<IdClaims, AuthError>)
    ensures
        r == exchange_result(o),
{
    match o {
        ExchangeOutcome::Denied(code) => Err(AuthError::AuthorizationDenied(code)),
        ExchangeOutcome::Unreachable => Err(AuthError::ProviderUnreachable),
        ExchangeOutcome::MissingIdToken => Err(AuthError::MalformedProviderResponse),
        ExchangeOutcome::VerificationFailed => Err(AuthError::TokenVerificationFailed),
        ExchangeOutcome::Verified(c) => Ok(c),
    }
}

/// Ends a successful callback: finds or creates the user of the claims'
/// subject at `provider_id`, stores the identity in the session and clears
/// the pending attempt.
pub fn complete_login(
    directory: &mut UserDirectory,
    session: &mut SessionState,
    provider_id: &str,
    claims: IdClaims,
    policy: ProfilePolicy,
) -> (r: CurrentUser)
    requires
        directory_wf(old(directory)@),
        old(directory).next_id < u64::MAX,
    ensures
        (final(directory)@, r@) == reconciled(
            old(directory)@,
            claims.subject@,
            provider_id@,
            opt_view(claims.name),
            opt_view(claims.email),
            policy,
        ),
        directory_wf(final(directory)@),
        final(session)@ == signed_in(r@),
{
    let IdClaims { subject, name, email } = claims;
    let user = directory.reconcile(subject, provider_id.to_string(), name, email, policy);
    session.sign_in(user.duplicate());
    user
}

/// A returned `state` that differs from the session's CSRF token is refused
/// with `CsrfMismatch`, before any request to the provider.
pub proof fn lemma_csrf_mismatch_refused(
    s: SessionView,
    returned_state: Seq<char>,
)
    requires
        s.csrf_token is Some,
        s.nonce is Some,
        s.csrf_token != Some(returned_state),
    ensures
        callback_gate(true, s, returned_state) == Err::<Seq<char>, AuthError>(AuthError::CsrfMismatch),
{
}

/// Once a sign-in has completed, the same callback presented again is
/// refused with `MissingSessionState`, whatever its `state`.
pub proof fn lemma_callback_not_replayable(
    user: crate::session::UserView,
    returned_state: Seq<char>,
)
    ensures
        callback_gate(true, signed_in(user), returned_state) == Err::<Seq<char>, AuthError>(
            AuthError::MissingSessionState,
        ),
{
}

/// Right after `initiate`, a callback whose `state` is the CSRF token it
/// stored passes the gates and yields its nonce.
pub proof fn lemma_attempt_round_trip(
    s: SessionView,
    csrf: Seq<char>,
    nonce: Seq<char>,
)
    ensures
        callback_gate(true, with_attempt(s, csrf, nonce), csrf) == Ok::<Seq<char>, AuthError>(nonce),
{
}

} // verus!
