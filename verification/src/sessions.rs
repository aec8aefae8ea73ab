//! Sessions: an opaque session id maps to the principal it was established
//! for until it is revoked; resolving an absent id yields no principal, not
//! an error.

use vstd::prelude::*;

use crate::domain::str_chars_eq;
use crate::domain::UserId;

verus! {

/// One persisted session.
pub struct Session {
    pub session_id: String,
    pub user_id: UserId,
}

impl Clone for Session {
    fn clone(&self) -> (res: Self)
        ensures
            res == *self,
    {
        Session { session_id: self.session_id.clone(), user_id: self.user_id }
    }
}

/// The principal of the first session carrying this id, if any.
pub open spec fn session_lookup(s: Seq<Session>, id: Seq<char>) -> Option<UserId>
    decreases s.len(),
{
    if s.len() == 0 {
        None
    } else if s[0].session_id@ == id {
        Some(s[0].user_id)
    } else {
        session_lookup(s.drop_first(), id)
    }
}

pub proof fn lemma_session_lookup(s: Seq<Session>, id: Seq<char>)
    ensures
        match session_lookup(s, id) {
            Some(u) => exists|k: int|
                0 <= k < s.len() && s[k].session_id@ == id && s[k].user_id == u,
            None => forall|j: int| 0 <= j < s.len() ==> s[j].session_id@ != id,
        },
    decreases s.len(),
{
    if s.len() > 0 && s[0].session_id@ != id {
        let rest = s.drop_first();
        lemma_session_lookup(rest, id);
        match session_lookup(rest, id) {
            Some(u) => {
                let k = choose|k: int|
                    0 <= k < rest.len() && rest[k].session_id@ == id && rest[k].user_id == u;
                assert(s[k + 1] == rest[k]);
            },
            None => {
                assert forall|j: int| 0 <= j < s.len() implies s[j].session_id@ != id by {
                    if j > 0 {
                        assert(s[j] == rest[j - 1]);
                    }
                }
            },
        }
    }
}

/// The sessions left after every session with this id is removed.
pub open spec fn spec_revoke(s: Seq<Session>, id: Seq<char>) -> Seq<Session>
    decreases s.len(),
{
    if s.len() == 0 {
        Seq::empty()
    } else if s.last().session_id@ == id {
        spec_revoke(s.drop_last(), id)
    } else {
        spec_revoke(s.drop_last(), id).push(s.last())
    }
}

/// The session store: the key-value store sessions live in, keyed by an
/// opaque session id.
pub struct SessionStore {
    sessions: Vec<Session>,
}

impl SessionStore {
    pub closed spec fn sessions_seq(&self) -> Seq<Session> {
        self.sessions@
    }

    /// A session id is bound to at most one principal.
    pub open spec fn wf(&self) -> bool {
        forall|i: int, j: int|
            0 <= i < j < self.sessions_seq().len() ==> self.sessions_seq()[i].session_id@
                != self.sessions_seq()[j].session_id@
    }

    pub fn new() -> (r: SessionStore)
        ensures
            r.sessions_seq() == Seq::<Session>::empty(),
            r.wf(),
    {
        SessionStore { sessions: Vec::new() }
    }

    /// Persists a session binding this id to the authenticated principal,
    /// unless the id is already taken; nothing changes otherwise. The caller
    /// supplies a cryptographically random id, so a collision means the id
    /// must be drawn again.
    pub fn establish(&mut self, session_id: String, user_id: UserId) -> (fresh: bool)
        ensures
            fresh == (session_lookup(old(self).sessions_seq(), session_id@) is None),
            !fresh ==> final(self).sessions_seq() == old(self).sessions_seq(),
            fresh ==> ({
                let s = final(self).sessions_seq();
                let o = old(self).sessions_seq();
                &&& s.len() == o.len() + 1
                &&& s.subrange(0, o.len() as int) == o
                &&& s.last().session_id@ == session_id@
                &&& s.last().user_id == user_id
            }),
            old(self).wf() ==> final(self).wf(),
    {
        proof {
            lemma_session_lookup(self.sessions_seq(), session_id@);
        }
        match self.lookup(session_id.as_str()) {
            Some(_) => false,
            None => {
                self.sessions.push(Session { session_id, user_id });
                proof {
                    assert(final(self).sessions_seq().subrange(
                        0,
                        old(self).sessions_seq().len() as int,
                    ) =~= old(self).sessions_seq());
                }
                true
            },
        }
    }

    fn lookup(&self, session_id: &str) -> (r: Option<UserId>)
        ensures
            r == session_lookup(self.sessions_seq(), session_id@),
    {
        proof {
            lemma_session_lookup(self.sessions_seq(), session_id@);
        }
        let mut i: usize = 0;
        let n = self.sessions.len();
        while i < n
            invariant
                i <= n,
                n == self.sessions_seq().len(),
                forall|j: int| 0 <= j < i ==> self.sessions_seq()[j].session_id@ != session_id@,
                match session_lookup(self.sessions_seq(), session_id@) {
                    Some(u) => exists|k: int|
                        0 <= k < n && self.sessions_seq()[k].session_id@ == session_id@
                            && self.sessions_seq()[k].user_id == u,
                    None => forall|j: int|
                        0 <= j < n ==> self.sessions_seq()[j].session_id@ != session_id@,
                },
            decreases n - i,
        {
            if str_chars_eq(self.sessions[i].session_id.as_str(), session_id) {
                proof {
                    lemma_session_lookup_first(self.sessions_seq(), session_id@, i as int);
                }
                return Some(self.sessions[i].user_id);
            }
            i = i + 1;
        }
        None
    }

    /// Resolves a presented session id to its principal; an absent or
    /// revoked id yields no principal, not an error.
    pub fn resolve(&self, session_id: &str) -> (r: Option<UserId>)
        ensures
            r == session_lookup(self.sessions_seq(), session_id@),
    {
        self.lookup(session_id)
    }

    /// Destroys every session bound to this id.
    pub fn revoke(&mut self, session_id: &str)
        ensures
            final(self).sessions_seq() == spec_revoke(old(self).sessions_seq(), session_id@),
            old(self).wf() ==> final(self).wf(),
    {
        let ghost o = self.sessions_seq();
        let ghost target = spec_revoke(o, session_id@);
        let mut out: Vec<Session> = Vec::new();
        let mut i: usize = 0;
        let n = self.sessions.len();
        while i < n
            invariant
                i <= n,
                n == o.len(),
                o == self.sessions_seq(),
                out@ == spec_revoke(o.take(i as int), session_id@),
            decreases n - i,
        {
            proof {
                assert(o.take(i + 1).drop_last() =~= o.take(i as int));
                assert(o.take(i + 1).last() == o[i as int]);
            }
            let s = &self.sessions[i];
            if !str_chars_eq(s.session_id.as_str(), session_id) {
                out.push(s.clone());
            }
            i = i + 1;
        }
        proof {
            assert(o.take(n as int) =~= o);
        }
        self.sessions = out;
        proof {
            if old(self).wf() {
                lemma_revoke_keeps_distinct(o, session_id@);
            }
        }
    }
}

proof fn lemma_session_lookup_first(s: Seq<Session>, id: Seq<char>, i: int)
    requires
        0 <= i < s.len(),
        s[i].session_id@ == id,
        forall|j: int| 0 <= j < i ==> s[j].session_id@ != id,
    ensures
        session_lookup(s, id) == Some(s[i].user_id),
    decreases s.len(),
{
    if i > 0 {
        let rest = s.drop_first();
        assert forall|j: int| 0 <= j < i - 1 implies rest[j].session_id@ != id by {
            assert(rest[j] == s[j + 1]);
        }
        assert(rest[i - 1] == s[i]);
        lemma_session_lookup_first(rest, id, i - 1);
    }
}

/// Each session that revocation keeps was already in the store.
proof fn lemma_revoke_membership(s: Seq<Session>, id: Seq<char>, k: int)
    requires
        0 <= k < spec_revoke(s, id).len(),
    ensures
        exists|j: int| 0 <= j < s.len() && s[j] == spec_revoke(s, id)[k],
    decreases s.len(),
{
    if s.len() > 0 {
        let p = s.drop_last();
        if s.last().session_id@ == id {
            lemma_revoke_membership(p, id, k);
            let j = choose|j: int| 0 <= j < p.len() && p[j] == spec_revoke(p, id)[k];
            assert(s[j] == p[j]);
        } else {
            if k < spec_revoke(p, id).len() {
                lemma_revoke_membership(p, id, k);
                let j = choose|j: int| 0 <= j < p.len() && p[j] == spec_revoke(p, id)[k];
                assert(s[j] == p[j]);
                assert(spec_revoke(s, id)[k] == spec_revoke(p, id)[k]);
            } else {
                assert(spec_revoke(s, id)[k] == s.last());
                assert(s[s.len() - 1] == s.last());
            }
        }
    }
}

proof fn lemma_revoke_keeps_distinct(s: Seq<Session>, id: Seq<char>)
    requires
        forall|i: int, j: int| 0 <= i < j < s.len() ==> s[i].session_id@ != s[j].session_id@,
    ensures
        forall|i: int, j: int|
            0 <= i < j < spec_revoke(s, id).len() ==> spec_revoke(s, id)[i].session_id@
                != spec_revoke(s, id)[j].session_id@,
    decreases s.len(),
{
    if s.len() > 0 {
        let p = s.drop_last();
        assert forall|i: int, j: int|
            0 <= i < j < p.len() implies p[i].session_id@ != p[j].session_id@ by {
            assert(p[i] == s[i] && p[j] == s[j]);
        }
        lemma_revoke_keeps_distinct(p, id);
        if s.last().session_id@ == id {
            assert(spec_revoke(s, id) == spec_revoke(p, id));
        }
        if s.last().session_id@ != id {
            let r = spec_revoke(s, id);
            let rp = spec_revoke(p, id);
            assert forall|i: int, j: int|
                0 <= i < j < r.len() implies r[i].session_id@ != r[j].session_id@ by {
                if j < rp.len() {
                    assert(r[i] == rp[i] && r[j] == rp[j]);
                } else {
                    assert(r[j] == s.last());
                    assert(r[i] == rp[i]);
                    lemma_revoke_membership(p, id, i);
                    let w = choose|w: int| 0 <= w < p.len() && p[w] == rp[i];
                    assert(s[w] == p[w]);
                    assert(s[w].session_id@ != s[s.len() - 1].session_id@);
                }
            }
        }
    }
}

/// Establishing a session with an id no current session carries lets that
/// id resolve to exactly the principal it was established for.
pub proof fn lemma_establish_then_resolve(s: Seq<Session>, session: Session)
    requires
        forall|j: int| 0 <= j < s.len() ==> s[j].session_id@ != session.session_id@,
    ensures
        session_lookup(s.push(session), session.session_id@) == Some(session.user_id),
    decreases s.len(),
{
    if s.len() == 0 {
        assert(s.push(session)[0] == session);
    } else {
        let t = s.push(session);
        assert(t[0] == s[0]);
        assert(t.drop_first() =~= s.drop_first().push(session));
        assert forall|j: int|
            0 <= j < s.drop_first().len() implies s.drop_first()[j].session_id@
            != session.session_id@ by {
            assert(s.drop_first()[j] == s[j + 1]);
        }
        lemma_establish_then_resolve(s.drop_first(), session);
    }
}

/// After a session id is revoked it resolves to no principal.
pub proof fn lemma_revoke_then_resolve(s: Seq<Session>, id: Seq<char>)
    ensures
        session_lookup(spec_revoke(s, id), id) is None,
{
    lemma_session_lookup(spec_revoke(s, id), id);
    if session_lookup(spec_revoke(s, id), id) is Some {
        let k = choose|k: int|
            0 <= k < spec_revoke(s, id).len() && spec_revoke(s, id)[k].session_id@ == id;
        lemma_revoke_no_id(s, id, k);
    }
}

proof fn lemma_revoke_no_id(s: Seq<Session>, id: Seq<char>, k: int)
    requires
        0 <= k < spec_revoke(s, id).len(),
    ensures
        spec_revoke(s, id)[k].session_id@ != id,
    decreases s.len(),
{
    if s.len() > 0 {
        let p = s.drop_last();
        if s.last().session_id@ == id {
            lemma_revoke_no_id(p, id, k);
        } else {
            if k < spec_revoke(p, id).len() {
                lemma_revoke_no_id(p, id, k);
                assert(spec_revoke(s, id)[k] == spec_revoke(p, id)[k]);
            } else {
                assert(spec_revoke(s, id)[k] == s.last());
            }
        }
    }
}

} // verus!
