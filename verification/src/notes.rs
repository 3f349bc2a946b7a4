//! The notes store and its service, keeping the stored procedures' contract:
//! creation hands out fresh ids in order, reads, updates and deletions are
//! scoped to the owner, and search filters the owner's notes by a term.

use vstd::prelude::*;
use crate::models::{CreateNoteRequest, NoteResponse, UpdateNoteRequest};
use crate::scan::{contains_seq, str_contains};

verus! {

/// A stored note: its id, its owner's principal, the text, and the creation
/// and last-update seconds.
pub struct NoteRecord {
    pub id: i32,
    pub owner: i32,
    pub title: String,
    pub content: String,
    pub created_at: u64,
    pub updated_at: u64,
}

/// The response carries exactly the record's fields.
pub open spec fn response_matches(resp: NoteResponse, rec: NoteRecord) -> bool {
    &&& resp.id == rec.id
    &&& resp.title@ == rec.title@
    &&& resp.content@ == rec.content@
    &&& resp.created_at == rec.created_at
    &&& resp.updated_at == rec.updated_at
}

/// The responses carry exactly these records, in order.
pub open spec fn responses_match(rs: Seq<NoteResponse>, ns: Seq<NoteRecord>) -> bool {
    rs.len() == ns.len() && forall|i: int|
        0 <= i < rs.len() ==> response_matches(#[trigger] rs[i], ns[i])
}

/// Filtering one more record keeps the filtered sequence, extended by that
/// record exactly when it passes.
proof fn lemma_filter_step(v: Seq<NoteRecord>, pred: spec_fn(NoteRecord) -> bool, i: int)
    requires
        0 <= i < v.len(),
    ensures
        v.take(i + 1).filter(pred) == (if pred(v[i]) {
            v.take(i).filter(pred).push(v[i])
        } else {
            v.take(i).filter(pred)
        }),
{
    reveal_with_fuel(Seq::<NoteRecord>::filter, 2);
    let prev = v.take(i);
    let cur = v.take(i + 1);
    assert(cur.drop_last() =~= prev);
    assert(cur.last() == v[i]);
}

/// Matching responses stay matching when both sides grow by a matching pair.
proof fn lemma_responses_match_push(
    rs: Seq<NoteResponse>,
    ns: Seq<NoteRecord>,
    resp: NoteResponse,
    rec: NoteRecord,
)
    requires
        responses_match(rs, ns),
        response_matches(resp, rec),
    ensures
        responses_match(rs.push(resp), ns.push(rec)),
{
    assert(forall|k: int|
        0 <= k < rs.len() ==> rs.push(resp)[k] == rs[k] && ns.push(rec)[k] == #[trigger] ns[k]);
    assert(rs.push(resp)[rs.len() as int] == resp);
}

/// Some record has this id and this owner.
pub open spec fn has_note(s: Seq<NoteRecord>, id: i32, owner: i32) -> bool {
    exists|i: int| 0 <= i < s.len() && (#[trigger] s[i]).id == id && s[i].owner == owner
}

/// What the search returns: the owner's notes, and under a term only those
/// whose title or content contains it.
pub open spec fn matches_search(n: NoteRecord, owner: i32, term: Option<Seq<char>>) -> bool {
    n.owner == owner && match term {
        None => true,
        Some(t) => contains_seq(n.title@, t) || contains_seq(n.content@, t),
    }
}

/// The notes service: the records in creation order and the next fresh id.
pub struct NoteService {
    records: Vec<NoteRecord>,
    next_id: i32,
}

impl NoteService {
    /// The stored notes, in creation order.
    pub closed spec fn view(&self) -> Seq<NoteRecord> {
        self.records@
    }

    /// The id the next created note will get.
    pub closed spec fn next(&self) -> int {
        self.next_id as int
    }

    /// Ids are handed out in strictly increasing order and never reused, so
    /// every id below the next one at most once, and every stored id is
    /// positive and below the next.
    pub open spec fn wf(&self) -> bool {
        &&& 1 <= self.next()
        &&& forall|i: int|
            0 <= i < self.view().len() ==> 1 <= (#[trigger] self.view()[i]).id < self.next()
        &&& forall|i: int, j: int|
            0 <= i < j < self.view().len() ==> (#[trigger] self.view()[i]).id < (
            #[trigger] self.view()[j]).id
    }

    /// A service with no notes yet.
    pub fn new() -> (r: NoteService)
        ensures
            r.wf(),
            r.view().len() == 0,
            r.next() == 1,
    {
        NoteService { records: Vec::new(), next_id: 1 }
    }

    /// The id the next created note will get; callers check it against
    /// `i32::MAX` before creating.
    pub fn next_id(&self) -> (r: i32)
        ensures
            r as int == self.next(),
    {
        self.next_id
    }

    /// Stores a new note for `user_id` under a fresh id and returns it.
    pub fn create_note(&mut self, request: CreateNoteRequest, user_id: i32, now: u64) -> (r:
        NoteResponse)
        requires
            old(self).wf(),
            old(self).next() < i32::MAX as int,
        ensures
            final(self).wf(),
            final(self).next() == old(self).next() + 1,
            r.id as int == old(self).next(),
            final(self).view() == old(self).view().push(
                (NoteRecord {
                    id: r.id,
                    owner: user_id,
                    title: request.title,
                    content: request.content,
                    created_at: now,
                    updated_at: now,
                }),
            ),
            r.title@ == request.title@,
            r.content@ == request.content@,
            r.created_at == now,
            r.updated_at == now,
    {
        let id = self.next_id;
        let resp = NoteResponse {
            id,
            title: request.title.clone(),
            content: request.content.clone(),
            created_at: now,
            updated_at: now,
        };
        self.records.push(
            NoteRecord {
                id,
                owner: user_id,
                title: request.title,
                content: request.content,
                created_at: now,
                updated_at: now,
            },
        );
        self.next_id = id + 1;
        proof {
            let v0 = old(self).view();
            let v1 = self.view();
            assert(forall|a: int| 0 <= a < v0.len() ==> v1[a] == v0[a]);
            assert(v1[v0.len() as int].id == id);
        }
        resp
    }

    /// All of `user_id`'s notes, in creation order.
    #[verifier::loop_isolation(false)]
    pub fn get_user_notes(&self, user_id: i32) -> (r: Vec<NoteResponse>)
        ensures
            responses_match(r@, self.view().filter(|n: NoteRecord| n.owner == user_id)),
    {
        let ghost pred = |n: NoteRecord| n.owner == user_id;
        let mut out: Vec<NoteResponse> = Vec::new();
        let n = self.records.len();
        let mut i: usize = 0;
        while i < n
            invariant
                i <= n,
                responses_match(out@, self.view().take(i as int).filter(pred)),
            decreases n - i,
        {
            proof {
                lemma_filter_step(self.view(), pred, i as int);
            }
            let rec = &self.records[i];
            if rec.owner == user_id {
                let resp = NoteResponse {
                    id: rec.id,
                    title: rec.title.clone(),
                    content: rec.content.clone(),
                    created_at: rec.created_at,
                    updated_at: rec.updated_at,
                };
                proof {
                    lemma_responses_match_push(
                        out@,
                        self.view().take(i as int).filter(pred),
                        resp,
                        self.view()[i as int],
                    );
                }
                out.push(resp);
            }
            i = i + 1;
        }
        proof {
            assert(self.view().take(n as int) =~= self.view());
        }
        out
    }

    /// The note with this id, provided `user_id` owns it; a note someone
    /// else owns is as absent as one that does not exist.
    #[verifier::loop_isolation(false)]
    pub fn get_note_by_id(&self, note_id: i32, user_id: i32) -> (r: Option<NoteResponse>)
        requires
            self.wf(),
        ensures
            match r {
                Some(resp) => exists|i: int|
                    #![trigger self.view()[i]]
                    0 <= i < self.view().len() && self.view()[i].id == note_id
                        && self.view()[i].owner == user_id && response_matches(
                        resp,
                        self.view()[i],
                    ),
                None => !has_note(self.view(), note_id, user_id),
            },
    {
        let n = self.records.len();
        let mut i: usize = 0;
        while i < n
            invariant
                i <= n,
                forall|j: int| 0 <= j < i ==> (#[trigger] self.view()[j]).id != note_id,
            decreases n - i,
        {
            let rec = &self.records[i];
            if rec.id == note_id {
                if rec.owner == user_id {
                    let resp = NoteResponse {
                        id: rec.id,
                        title: rec.title.clone(),
                        content: rec.content.clone(),
                        created_at: rec.created_at,
                        updated_at: rec.updated_at,
                    };
                    proof {
                        assert(response_matches(resp, self.view()[i as int]));
                    }
                    return Some(resp);
                } else {
                    proof {
                        assert(!has_note(self.view(), note_id, user_id)) by {
                            if has_note(self.view(), note_id, user_id) {
                                let j = choose|j: int|
                                    0 <= j < self.view().len() && (#[trigger] self.view()[j]).id
                                        == note_id && self.view()[j].owner == user_id;
                                if j < i as int {
                                    assert(self.view()[j].id < self.view()[i as int].id);
                                } else if j > i as int {
                                    assert(self.view()[i as int].id < self.view()[j].id);
                                }
                            }
                        }
                    }
                    return None;
                }
            }
            i = i + 1;
        }
        None
    }

    /// Replaces the title and content of `user_id`'s note with this id and
    /// stamps the update second; the creation second stays. Nothing changes
    /// when the note is absent or owned by someone else.
    #[verifier::loop_isolation(false)]
    pub fn update_note(
        &mut self,
        note_id: i32,
        request: UpdateNoteRequest,
        user_id: i32,
        now: u64,
    ) -> (r: Option<NoteResponse>)
        requires
            old(self).wf(),
        ensures
            final(self).wf(),
            final(self).next() == old(self).next(),
            match r {
                Some(resp) => exists|i: int|
                    #![trigger old(self).view()[i]]
                    0 <= i < old(self).view().len() && old(self).view()[i].id == note_id && old(
                        self,
                    ).view()[i].owner == user_id && final(self).view() == old(self).view().update(
                        i,
                        (NoteRecord {
                            id: note_id,
                            owner: user_id,
                            title: request.title,
                            content: request.content,
                            created_at: old(self).view()[i].created_at,
                            updated_at: now,
                        }),
                    ) && resp.id == note_id && resp.title@ == request.title@ && resp.content@
                        == request.content@ && resp.created_at == old(self).view()[i].created_at
                        && resp.updated_at == now,
                None => !has_note(old(self).view(), note_id, user_id) && final(self).view() == old(
                    self,
                ).view(),
            },
    {
        let n = self.records.len();
        let mut i: usize = 0;
        while i < n
            invariant
                i <= n,
                self == old(self),
                forall|j: int| 0 <= j < i ==> (#[trigger] self.view()[j]).id != note_id,
            decreases n - i,
        {
            let rec = &self.records[i];
            if rec.id == note_id {
                if rec.owner == user_id {
                    let created = rec.created_at;
                    let resp = NoteResponse {
                        id: note_id,
                        title: request.title.clone(),
                        content: request.content.clone(),
                        created_at: created,
                        updated_at: now,
                    };
                    self.records[i] = NoteRecord {
                        id: note_id,
                        owner: user_id,
                        title: request.title,
                        content: request.content,
                        created_at: created,
                        updated_at: now,
                    };
                    proof {
                        let v0 = old(self).view();
                        let v1 = self.view();
                        assert(forall|k: int| 0 <= k < v1.len() && k != i as int ==> v1[k] == v0[k]);
                        assert(v1[i as int].id == v0[i as int].id);
                        assert(forall|k: int|
                            0 <= k < v1.len() ==> (#[trigger] v1[k]).id == v0[k].id);
                        assert(response_matches(resp, v1[i as int]));
                    }
                    return Some(resp);
                } else {
                    proof {
                        assert(!has_note(self.view(), note_id, user_id)) by {
                            if has_note(self.view(), note_id, user_id) {
                                let j = choose|j: int|
                                    0 <= j < self.view().len() && (#[trigger] self.view()[j]).id
                                        == note_id && self.view()[j].owner == user_id;
                                if j < i as int {
                                    assert(self.view()[j].id < self.view()[i as int].id);
                                } else if j > i as int {
                                    assert(self.view()[i as int].id < self.view()[j].id);
                                }
                            }
                        }
                    }
                    return None;
                }
            }
            i = i + 1;
        }
        None
    }

    /// Removes `user_id`'s note with this id and says whether one was there;
    /// a note someone else owns is left alone.
    #[verifier::loop_isolation(false)]
    pub fn delete_note(&mut self, note_id: i32, user_id: i32) -> (r: bool)
        requires
            old(self).wf(),
        ensures
            final(self).wf(),
            final(self).next() == old(self).next(),
            if r {
                exists|i: int|
                    #![trigger old(self).view()[i]]
                    0 <= i < old(self).view().len() && old(self).view()[i].id == note_id && old(
                        self,
                    ).view()[i].owner == user_id && final(self).view() == old(self).view().remove(i)
            } else {
                !has_note(old(self).view(), note_id, user_id) && final(self).view() == old(
                    self,
                ).view()
            },
    {
        let n = self.records.len();
        let mut i: usize = 0;
        while i < n
            invariant
                i <= n,
                self == old(self),
                forall|j: int| 0 <= j < i ==> (#[trigger] self.view()[j]).id != note_id,
            decreases n - i,
        {
            let rec = &self.records[i];
            if rec.id == note_id {
                if rec.owner == user_id {
                    proof {
                        assert(old(self).view()[i as int].id == note_id
                            && old(self).view()[i as int].owner == user_id);
                    }
                    self.records.remove(i);
                    proof {
                        let v0 = old(self).view();
                        let v1 = self.view();
                        v0.remove_ensures(i as int);
                        assert(v1 == v0.remove(i as int));
                        assert(forall|k: int| 0 <= k < i ==> #[trigger] v1[k] == v0[k]);
                        assert(forall|k: int|
                            i <= k < v1.len() ==> #[trigger] v1[k] == v0[k + 1]);
                        assert(forall|a: int, b: int|
                            0 <= a < b < v1.len() ==> (#[trigger] v1[a]).id < (
                            #[trigger] v1[b]).id);
                        assert(forall|k: int|
                            0 <= k < v1.len() ==> 1 <= (#[trigger] v1[k]).id < self.next());
                    }
                    return true;
                } else {
                    proof {
                        assert(!has_note(self.view(), note_id, user_id)) by {
                            if has_note(self.view(), note_id, user_id) {
                                let j = choose|j: int|
                                    0 <= j < self.view().len() && (#[trigger] self.view()[j]).id
                                        == note_id && self.view()[j].owner == user_id;
                                if j < i as int {
                                    assert(self.view()[j].id < self.view()[i as int].id);
                                } else if j > i as int {
                                    assert(self.view()[i as int].id < self.view()[j].id);
                                }
                            }
                        }
                    }
                    return false;
                }
            }
            i = i + 1;
        }
        false
    }

    /// The notes of `user_id` whose title or content contains the term, in
    /// creation order; without a term, all of the user's notes.
    #[verifier::loop_isolation(false)]
    pub fn search_notes(&self, user_id: i32, search_term: Option<String>) -> (r: Vec<NoteResponse>)
        ensures
            ({
                let term = match search_term {
                    Some(t) => Some(t@),
                    None => None,
                };
                responses_match(
                    r@,
                    self.view().filter(|n: NoteRecord| matches_search(n, user_id, term)),
                )
            }),
    {
        let ghost term = match &search_term {
            Some(t) => Some(t@),
            None => None,
        };
        let ghost pred = |n: NoteRecord| matches_search(n, user_id, term);
        let mut out: Vec<NoteResponse> = Vec::new();
        let n = self.records.len();
        let mut i: usize = 0;
        while i < n
            invariant
                i <= n,
                responses_match(out@, self.view().take(i as int).filter(pred)),
            decreases n - i,
        {
            proof {
                lemma_filter_step(self.view(), pred, i as int);
            }
            let rec = &self.records[i];
            let hit = rec.owner == user_id && (match &search_term {
                None => true,
                Some(t) => str_contains(rec.title.as_str(), t.as_str()) || str_contains(
                    rec.content.as_str(),
                    t.as_str(),
                ),
            });
            if hit {
                let resp = NoteResponse {
                    id: rec.id,
                    title: rec.title.clone(),
                    content: rec.content.clone(),
                    created_at: rec.created_at,
                    updated_at: rec.updated_at,
                };
                proof {
                    assert(pred(self.view()[i as int]));
                    lemma_responses_match_push(
                        out@,
                        self.view().take(i as int).filter(pred),
                        resp,
                        self.view()[i as int],
                    );
                }
                out.push(resp);
            }
            i = i + 1;
        }
        proof {
            assert(self.view().take(n as int) =~= self.view());
        }
        out
    }
}

} // verus!
