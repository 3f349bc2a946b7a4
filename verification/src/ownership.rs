//! Ownership enforcement: a pure comparison of the authenticated principal
//! with a resource's owner. A mismatch is its own outcome, distinct from a
//! resource that does not exist at all.

use vstd::prelude::*;

verus! {

/// The authenticated principal is not the resource's owner.
#[derive(Clone, Copy, PartialEq, Eq, Structural, Debug)]
pub struct Forbidden;

impl Forbidden {
    /// The status the boundary layer sends for an ownership mismatch.
    pub fn status_code(&self) -> (r: u16)
        ensures
            r == 403,
    {
        403
    }
}

/// Allows exactly the owner: `Ok` when the authenticated principal is the
/// resource's owner, `Forbidden` otherwise. No I/O, no other outcome.
pub fn check(authenticated: i32, resource_owner: i32) -> (r: Result<(), Forbidden>)
    ensures
        r == (if authenticated == resource_owner {
            Ok::<(), Forbidden>(())
        } else {
            Err::<(), Forbidden>(Forbidden)
        }),
{
    if authenticated == resource_owner {
        Ok(())
    } else {
        Err(Forbidden)
    }
}

} // verus!
