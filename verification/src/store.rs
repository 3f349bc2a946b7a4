//! The credential store: one record per user, keyed by email.
//!
//! It keeps the stored procedures' contract: creation is atomic
//! create-or-conflict on the email, principals are handed out as 1, 2, 3, …
//! in creation order, and lookups are by email or principal.

use vstd::prelude::*;

verus! {

/// What the store keeps of a user: the principal it handed out, the public
/// identity, the secret's hash — never the secret — and the creation second.
pub struct CredentialRecord {
    pub principal: i32,
    pub username: String,
    pub email: String,
    pub secret_hash: String,
    pub created_at: u64,
}

/// Some record of the sequence carries this email.
pub open spec fn has_email(s: Seq<CredentialRecord>, email: Seq<char>) -> bool {
    exists|i: int| 0 <= i < s.len() && (#[trigger] s[i].email@) == email
}

pub struct UserStore {
    records: Vec<CredentialRecord>,
}

impl UserStore {
    /// The records, in creation order.
    pub closed spec fn view(&self) -> Seq<CredentialRecord> {
        self.records@
    }

    /// Principals are the positions shifted by one — so no two records share
    /// one, every principal is positive, and no two records share an email.
    pub open spec fn wf(&self) -> bool {
        &&& self.view().len() <= i32::MAX as nat
        &&& forall|i: int|
            0 <= i < self.view().len() ==> (#[trigger] self.view()[i].principal) as int == i + 1
        &&& forall|i: int, j: int|
            0 <= i < j < self.view().len() ==> (#[trigger] self.view()[i].email@) != (
            #[trigger] self.view()[j].email@)
    }

    /// An empty store.
    pub fn new() -> (r: UserStore)
        ensures
            r.wf(),
            r.view().len() == 0,
    {
        UserStore { records: Vec::new() }
    }

    /// How many users the store holds.
    pub fn len(&self) -> (r: usize)
        ensures
            r == self.view().len(),
    {
        self.records.len()
    }

    /// Atomic create-or-conflict: a record under a fresh principal, or the
    /// report that the email is taken, with nothing changed.
    #[verifier::loop_isolation(false)]
    pub fn create(
        &mut self,
        username: String,
        email: String,
        secret_hash: String,
        now: u64,
    ) -> (r: Result<i32, ()>)
        requires
            old(self).wf(),
            old(self).view().len() < i32::MAX as nat,
        ensures
            final(self).wf(),
            match r {
                Ok(p) => !has_email(old(self).view(), email@) && p as int == old(self).view().len()
                    + 1 && final(self).view() == old(self).view().push(
                    (CredentialRecord {
                        principal: p,
                        username: username,
                        email: email,
                        secret_hash: secret_hash,
                        created_at: now,
                    }),
                ),
                Err(_) => has_email(old(self).view(), email@) && final(self).view() == old(
                    self,
                ).view(),
            },
    {
        let n = self.records.len();
        let mut i: usize = 0;
        while i < n
            invariant
                i <= n == self.view().len(),
                forall|j: int| 0 <= j < i ==> (#[trigger] self.view()[j].email@) != email@,
            decreases n - i,
        {
            if self.records[i].email == email {
                return Err(());
            }
            i = i + 1;
        }
        let principal = (n as i32) + 1;
        self.records.push(
            CredentialRecord { principal, username, email, secret_hash, created_at: now },
        );
        Ok(principal)
    }

    /// The record carrying this email, if any.
    #[verifier::loop_isolation(false)]
    pub fn find_by_identifier(&self, email: &str) -> (r: Option<&CredentialRecord>)
        ensures
            match r {
                Some(rec) => exists|i: int|
                    0 <= i < self.view().len() && *rec == (#[trigger] self.view()[i]) && rec.email@
                        == email@,
                None => !has_email(self.view(), email@),
            },
    {
        let email_string = String::from_str(email);
        let n = self.records.len();
        let mut i: usize = 0;
        while i < n
            invariant
                i <= n == self.view().len(),
                forall|j: int| 0 <= j < i ==> (#[trigger] self.view()[j].email@) != email@,
            decreases n - i,
        {
            if self.records[i].email == email_string {
                return Some(&self.records[i]);
            }
            i = i + 1;
        }
        None
    }

    /// The record of a principal: exactly the ones handed out are found.
    pub fn find_by_principal(&self, principal: i32) -> (r: Option<&CredentialRecord>)
        requires
            self.wf(),
        ensures
            match r {
                Some(rec) => 1 <= principal as int <= self.view().len() && *rec == self.view().index(
                    principal as int - 1,
                ),
                None => !(1 <= principal as int <= self.view().len()),
            },
    {
        if principal >= 1 && (principal as usize) <= self.records.len() {
            Some(&self.records[(principal as usize) - 1])
        } else {
            None
        }
    }
}

} // verus!
