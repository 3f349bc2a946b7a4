//! Registration and login.
//!
//! The service trusts its caller to have validated the request's shape (email
//! syntax, name length, secret length — the boundary layer's job) and owns
//! the business outcomes: hash the secret, create-or-conflict on the email,
//! check a secret against the stored hash, and issue a session token on
//! success. Exactly one store mutation on registration, one read on login,
//! one token on success, and no change on any failure.

use vstd::prelude::*;
use crate::credential::{hash_secret, verify_secret, matches_secret};
use crate::models::{AuthResponse, LoginRequest, RegisterRequest};
use crate::store::{UserStore, has_email};
use crate::token::{TokenCodec, spec_issue, MAX_TOKEN_TIME};
use crate::TOKEN_TTL_SECONDS;

verus! {

/// A registration or login outcome that is not a fresh session: the email is
/// taken, unknown, the secret does not match, or the infrastructure (the
/// randomness source behind hashing) failed.
#[derive(Clone, Copy, PartialEq, Eq, Structural, Debug)]
pub enum AuthError {
    DuplicateIdentifier,
    NotFound,
    InvalidCredentials,
    StoreFailure,
}

impl AuthError {
    /// The status the boundary layer sends for each outcome: conflict for a
    /// taken email, unauthorized for an unknown user or a wrong secret, and
    /// a bare server error for infrastructure failures, whose detail stays
    /// inside.
    pub fn status_code(&self) -> (r: u16)
        ensures
            r == (match self {
                AuthError::DuplicateIdentifier => 409u16,
                AuthError::NotFound => 401u16,
                AuthError::InvalidCredentials => 401u16,
                AuthError::StoreFailure => 500u16,
            }),
    {
        match self {
            AuthError::DuplicateIdentifier => 409,
            AuthError::NotFound => 401,
            AuthError::InvalidCredentials => 401,
            AuthError::StoreFailure => 500,
        }
    }
}

/// The authentication service: the credential store and the token codec it
/// issues sessions with.
pub struct AuthService {
    pub codec: TokenCodec,
    pub store: UserStore,
}

impl AuthService {
    /// A service with no users yet, issuing tokens under `codec`'s key.
    pub fn new(codec: TokenCodec) -> (r: AuthService)
        ensures
            r.store.wf(),
            r.store.view().len() == 0,
            r.codec == codec,
    {
        AuthService { codec, store: UserStore::new() }
    }

    /// Registers a new user: hash the secret, create the record unless the
    /// email is taken, and issue a day-long token. On any failure the store
    /// is untouched and no token exists.
    pub fn register_user(&mut self, request: RegisterRequest, now: u64) -> (r: Result<
        AuthResponse,
        AuthError,
    >)
        requires
            old(self).store.wf(),
            old(self).store.view().len() < i32::MAX as nat,
            now + TOKEN_TTL_SECONDS <= MAX_TOKEN_TIME,
        ensures
            final(self).store.wf(),
            final(self).codec == old(self).codec,
            match r {
                Ok(resp) => {
                    let v0 = old(self).store.view();
                    let v1 = final(self).store.view();
                    &&& !has_email(v0, request.email@)
                    &&& v1.len() == v0.len() + 1
                    &&& v1.take(v0.len() as int) == v0
                    &&& resp.user_id as int == v0.len() + 1
                    &&& v1.last().principal == resp.user_id
                    &&& v1.last().email@ == request.email@
                    &&& v1.last().username@ == request.username@
                    &&& v1.last().created_at == now
                    &&& matches_secret(request.password@, v1.last().secret_hash@)
                    &&& resp.username@ == request.username@
                    &&& resp.email@ == request.email@
                    &&& resp.token@ == spec_issue(
                        old(self).codec.key_view(),
                        resp.user_id,
                        (now + TOKEN_TTL_SECONDS) as nat,
                    )
                },
                Err(e) => {
                    &&& final(self).store.view() == old(self).store.view()
                    &&& (e == AuthError::DuplicateIdentifier || e == AuthError::StoreFailure)
                    &&& (e == AuthError::DuplicateIdentifier ==> has_email(
                        old(self).store.view(),
                        request.email@,
                    ))
                },
            },
    {
        let secret_hash = match hash_secret(request.password.as_str()) {
            Some(h) => h,
            None => {
                return Err(AuthError::StoreFailure);
            },
        };
        let username_stored = request.username.clone();
        let email_stored = request.email.clone();
        let principal = match self.store.create(username_stored, email_stored, secret_hash, now) {
            Ok(p) => p,
            Err(_) => {
                return Err(AuthError::DuplicateIdentifier);
            },
        };
        proof {
            assert(final(self).store.view().take(old(self).store.view().len() as int)
                =~= old(self).store.view());
        }
        let token = self.codec.issue_at(principal, now + TOKEN_TTL_SECONDS);
        Ok(
            AuthResponse {
                user_id: principal,
                username: request.username,
                email: request.email,
                token,
            },
        )
    }

    /// Logs a user in: look the email up, check the secret against the stored
    /// hash, and issue a day-long token. `NotFound` for an unknown email,
    /// `InvalidCredentials` for a wrong secret; the store never changes.
    pub fn login_user(&self, request: LoginRequest, now: u64) -> (r: Result<
        AuthResponse,
        AuthError,
    >)
        requires
            self.store.wf(),
            now + TOKEN_TTL_SECONDS <= MAX_TOKEN_TIME,
        ensures
            match r {
                Ok(resp) => exists|i: int|
                    #![trigger self.store.view()[i]]
                    {
                        let v = self.store.view();
                        &&& 0 <= i < v.len()
                        &&& v[i].email@ == request.email@
                        &&& matches_secret(request.password@, v[i].secret_hash@)
                        &&& resp.user_id == v[i].principal
                        &&& resp.username@ == v[i].username@
                        &&& resp.email@ == v[i].email@
                        &&& resp.token@ == spec_issue(
                            self.codec.key_view(),
                            v[i].principal,
                            (now + TOKEN_TTL_SECONDS) as nat,
                        )
                    },
                Err(AuthError::NotFound) => !has_email(self.store.view(), request.email@),
                Err(AuthError::InvalidCredentials) => exists|i: int|
                    #![trigger self.store.view()[i]]
                    {
                        let v = self.store.view();
                        &&& 0 <= i < v.len()
                        &&& v[i].email@ == request.email@
                        &&& !matches_secret(request.password@, v[i].secret_hash@)
                    },
                Err(_) => false,
            },
    {
        let record = match self.store.find_by_identifier(request.email.as_str()) {
            Some(rec) => rec,
            None => {
                return Err(AuthError::NotFound);
            },
        };
        let ghost i = choose|i: int|
            0 <= i < self.store.view().len() && *record == (#[trigger] self.store.view()[i])
                && record.email@ == request.email@;
        if !verify_secret(request.password.as_str(), record.secret_hash.as_str()) {
            return Err(AuthError::InvalidCredentials);
        }
        let token = self.codec.issue_at(record.principal, now + TOKEN_TTL_SECONDS);
        Ok(
            AuthResponse {
                user_id: record.principal,
                username: record.username.clone(),
                email: record.email.clone(),
                token,
            },
        )
    }
}

} // verus!
