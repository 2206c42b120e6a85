use vstd::prelude::*;

use crate::error::AuthError;
use crate::registry::{copy_text, opt_view};

verus! {

/// The signed-in identity.
pub struct CurrentUser {
    pub user_id: u64,
    pub subject_id: String,
    pub provider: String,
    pub display_name: Option<String>,
    pub email: Option<String>,
}

/// The values of a [`CurrentUser`].
pub ghost struct UserView {
    pub user_id: u64,
    pub subject_id: Seq<char>,
    pub provider: Seq<char>,
    pub display_name: Option<Seq<char>>,
    pub email: Option<Seq<char>>,
}

impl View for CurrentUser {
    type V = UserView;

    open spec fn view(&self) -> UserView {
        UserView {
            user_id: self.user_id,
            subject_id: self.subject_id@,
            provider: self.provider@,
            display_name: opt_view(self.display_name),
            email: opt_view(self.email),
        }
    }
}

impl CurrentUser {
    /// A copy with the same values.
    pub fn duplicate(&self) -> (r: CurrentUser)
        ensures
            r@ == self@,
    {
        CurrentUser {
            user_id: self.user_id,
            subject_id: self.subject_id.clone(),
            provider: self.provider.clone(),
            display_name: copy_text(&self.display_name),
            email: copy_text(&self.email),
        }
    }
}

/// What one client's session holds for sign-in: the pending attempt's CSRF
/// token and nonce, and the signed-in identity.
pub struct SessionState {
    pub csrf_token: Option<String>,
    pub nonce: Option<String>,
    pub identity: Option<CurrentUser>,
}

/// The values of a [`SessionState`].
pub ghost struct SessionView {
    pub csrf_token: Option<Seq<char>>,
    pub nonce: Option<Seq<char>>,
    pub identity: Option<UserView>,
}

/// The values of an optional identity.
pub open spec fn identity_view(o: Option<CurrentUser>) -> Option<UserView> {
    match o {
        Some(u) => Some(u@),
        None => None,
    }
}

impl View for SessionState {
    type V = SessionView;

    open spec fn view(&self) -> SessionView {
        SessionView {
            csrf_token: opt_view(self.csrf_token),
            nonce: opt_view(self.nonce),
            identity: identity_view(self.identity),
        }
    }
}

/// A session that holds nothing.
pub open spec fn empty_session() -> SessionView {
    SessionView { csrf_token: None, nonce: None, identity: None }
}

/// `s` with a new pending attempt, any earlier one overwritten.
pub open spec fn with_attempt(s: SessionView, csrf: Seq<char>, nonce: Seq<char>) -> SessionView {
    SessionView { csrf_token: Some(csrf), nonce: Some(nonce), identity: s.identity }
}

/// The session after a completed sign-in: the identity set, the attempt cleared.
pub open spec fn signed_in(u: UserView) -> SessionView {
    SessionView { csrf_token: None, nonce: None, identity: Some(u) }
}

/// The answer of the guard of protected routes to a session.
pub open spec fn guard_result(s: SessionView) -> Result<UserView, AuthError> {
    match s.identity {
        Some(u) => Ok(u),
        None => Err(AuthError::Unauthenticated),
    }
}

impl SessionState {
    /// A session that holds nothing.
    pub fn new() -> (r: SessionState)
        ensures
            r@ == empty_session(),
    {
        SessionState { csrf_token: None, nonce: None, identity: None }
    }

    /// Records a new pending attempt, overwriting any earlier one.
    pub fn begin_attempt(&mut self, csrf: String, nonce: String)
        ensures
            final(self)@ == with_attempt(old(self)@, csrf@, nonce@),
    {
        self.csrf_token = Some(csrf);
        self.nonce = Some(nonce);
    }

    /// Stores the signed-in identity and clears the pending attempt, so that
    /// it cannot serve a second callback.
    pub fn sign_in(&mut self, user: CurrentUser)
        ensures
            final(self)@ == signed_in(user@),
    {
        self.csrf_token = None;
        self.nonce = None;
        self.identity = Some(user);
    }

    /// Forgets everything the session held.
    pub fn destroy(&mut self)
        ensures
            final(self)@ == empty_session(),
    {
        self.csrf_token = None;
        self.nonce = None;
        self.identity = None;
    }
}

/// The guard of protected routes: the signed-in identity, or
/// `Unauthenticated` (401) when the session holds none. Reads only.
pub fn authenticate(session: &SessionState) -> (r: Result<CurrentUser, AuthError>)
    ensures
        match (r, guard_result(session@)) {
            (Ok(u), Ok(v)) => u@ == v,
            (Err(e), Err(f)) => e == f,
            _ => false,
        },
{
    match &session.identity {
        Some(u) => Ok(u.duplicate()),
        None => Err(AuthError::Unauthenticated),
    }
}

} // verus!
