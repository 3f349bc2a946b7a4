//! Reading a user's public record, and the per-user profile endpoint's rule:
//! only the owner may read it, and an ownership mismatch is told apart from
//! a principal that does not exist.

use vstd::prelude::*;
use crate::models::UserResponse;
use crate::ownership::{check, Forbidden};
use crate::store::UserStore;

verus! {

/// Why a profile request failed: the requester does not own the profile, or
/// no such user exists.
#[derive(Clone, Copy, PartialEq, Eq, Structural, Debug)]
pub enum ProfileError {
    Forbidden,
    NotFound,
}

impl ProfileError {
    /// The status the boundary layer sends: 403 for the wrong owner, 404 for
    /// a missing user.
    pub fn status_code(&self) -> (r: u16)
        ensures
            r == (if self is Forbidden {
                403u16
            } else {
                404u16
            }),
    {
        match self {
            ProfileError::Forbidden => 403,
            ProfileError::NotFound => 404,
        }
    }
}

/// Reads user records out of the credential store.
pub struct UserService {}

impl UserService {
    pub fn new() -> (r: UserService) {
        UserService {  }
    }

    /// The public record of a principal, exactly for the principals the
    /// store has handed out.
    pub fn get_user_by_id(&self, store: &UserStore, user_id: i32) -> (r: Option<UserResponse>)
        requires
            store.wf(),
        ensures
            match r {
                Some(u) => 1 <= user_id as int <= store.view().len() && ({
                    let rec = store.view().index(user_id as int - 1);
                    &&& u.id == rec.principal
                    &&& u.username@ == rec.username@
                    &&& u.email@ == rec.email@
                    &&& u.created_at == rec.created_at
                }),
                None => !(1 <= user_id as int <= store.view().len()),
            },
    {
        match store.find_by_principal(user_id) {
            Some(rec) => Some(
                UserResponse {
                    id: rec.principal,
                    username: rec.username.clone(),
                    email: rec.email.clone(),
                    created_at: rec.created_at,
                },
            ),
            None => None,
        }
    }
}

/// The profile endpoint's whole decision: the requester may read exactly
/// their own record; someone else's profile is `Forbidden` whether or not it
/// exists, and their own is `NotFound` when no record carries their id.
pub fn get_user_profile(store: &UserStore, authenticated: i32, requested: i32) -> (r: Result<
    UserResponse,
    ProfileError,
>)
    requires
        store.wf(),
    ensures
        match r {
            Ok(u) => authenticated == requested && 1 <= requested as int <= store.view().len()
                && ({
                let rec = store.view().index(requested as int - 1);
                &&& u.id == rec.principal
                &&& u.username@ == rec.username@
                &&& u.email@ == rec.email@
                &&& u.created_at == rec.created_at
            }),
            Err(ProfileError::Forbidden) => authenticated != requested,
            Err(ProfileError::NotFound) => authenticated == requested && !(1 <= requested as int
                <= store.view().len()),
        },
{
    if let Err(_) = check(authenticated, requested) {
        return Err(ProfileError::Forbidden);
    }
    let service = UserService::new();
    match service.get_user_by_id(store, requested) {
        Some(u) => Ok(u),
        None => Err(ProfileError::NotFound),
    }
}

} // verus!
