//! Subscribers and confirmation tokens: signup, token issuance, redemption
//! with its exactly-once status transition, and the listing used by the
//! newsletter dispatcher.

use vstd::prelude::*;
use vstd::string::StringExecFns;

use crate::domain::str_chars_eq;
use crate::domain::valid_email;
use crate::domain::valid_subscriber_name;
use crate::domain::NewSubscriber;
use crate::domain::SendFault;
use crate::domain::StorageFault;
use crate::domain::SubscriberEmail;
use crate::domain::SubscriberId;
use crate::domain::SubscriberName;

verus! {

/// Lifecycle of a subscriber: created pending, confirmed exactly once by
/// token redemption, and never anything else afterwards.
#[derive(Clone, Copy, PartialEq, Eq, Structural, Debug)]
pub enum SubscriberStatus {
    PendingConfirmation,
    Confirmed,
}

/// One subscriber row as the store holds it.
pub struct StoredSubscriber {
    pub id: SubscriberId,
    pub email: String,
    pub name: String,
    pub status: SubscriberStatus,
    pub subscribed_at: u64,
}

impl Clone for StoredSubscriber {
    fn clone(&self) -> (res: Self)
        ensures
            res == *self,
    {
        StoredSubscriber {
            id: self.id,
            email: self.email.clone(),
            name: self.name.clone(),
            status: self.status,
            subscribed_at: self.subscribed_at,
        }
    }
}

/// One confirmation token, bound to the subscriber it was issued for.
pub struct SubscriptionToken {
    pub token: String,
    pub subscriber_id: SubscriberId,
}

/// Whether some row carries this subscriber id.
pub open spec fn has_subscriber(s: Seq<StoredSubscriber>, id: SubscriberId) -> bool {
    exists|i: int| 0 <= i < s.len() && s[i].id == id
}

/// The subscriber id bound to the first row holding this token, if any.
pub open spec fn token_lookup(toks: Seq<SubscriptionToken>, t: Seq<char>) -> Option<SubscriberId>
    decreases toks.len(),
{
    if toks.len() == 0 {
        None
    } else if toks[0].token@ == t {
        Some(toks[0].subscriber_id)
    } else {
        token_lookup(toks.drop_first(), t)
    }
}

pub proof fn lemma_token_lookup(toks: Seq<SubscriptionToken>, t: Seq<char>)
    ensures
        match token_lookup(toks, t) {
            Some(id) => exists|k: int|
                0 <= k < toks.len() && toks[k].token@ == t && toks[k].subscriber_id == id,
            None => forall|j: int| 0 <= j < toks.len() ==> toks[j].token@ != t,
        },
    decreases toks.len(),
{
    if toks.len() > 0 && toks[0].token@ != t {
        let rest = toks.drop_first();
        lemma_token_lookup(rest, t);
        match token_lookup(rest, t) {
            Some(id) => {
                let k = choose|k: int|
                    0 <= k < rest.len() && rest[k].token@ == t && rest[k].subscriber_id == id;
                assert(toks[k + 1] == rest[k]);
            },
            None => {
                assert forall|j: int| 0 <= j < toks.len() implies toks[j].token@ != t by {
                    if j > 0 {
                        assert(toks[j] == rest[j - 1]);
                    }
                }
            },
        }
    }
}

/// The subscriber rows after the row with this id, if any, is marked
/// confirmed; every other row is untouched.
pub open spec fn spec_confirm(s: Seq<StoredSubscriber>, id: SubscriberId) -> Seq<StoredSubscriber> {
    Seq::new(
        s.len(),
        |i: int|
            if s[i].id == id {
                StoredSubscriber { status: SubscriberStatus::Confirmed, ..s[i] }
            } else {
                s[i]
            },
    )
}

/// The confirmed rows, in store order.
pub open spec fn confirmed_of(s: Seq<StoredSubscriber>) -> Seq<StoredSubscriber>
    decreases s.len(),
{
    if s.len() == 0 {
        Seq::empty()
    } else if s.last().status is Confirmed {
        confirmed_of(s.drop_last()).push(s.last())
    } else {
        confirmed_of(s.drop_last())
    }
}

/// The store of subscribers and confirmation tokens, modelling the two
/// relational tables this core reads and writes.
pub struct SubscriberStore {
    subscribers: Vec<StoredSubscriber>,
    tokens: Vec<SubscriptionToken>,
}

impl SubscriberStore {
    pub closed spec fn subscribers_seq(&self) -> Seq<StoredSubscriber> {
        self.subscribers@
    }

    pub closed spec fn tokens_seq(&self) -> Seq<SubscriptionToken> {
        self.tokens@
    }

    /// Subscriber ids are unique, and a token resolves to at most one
    /// subscriber.
    pub open spec fn wf(&self) -> bool {
        &&& forall|i: int, j: int|
            0 <= i < j < self.subscribers_seq().len() ==> self.subscribers_seq()[i].id
                != self.subscribers_seq()[j].id
        &&& forall|i: int, j: int|
            0 <= i < j < self.tokens_seq().len() ==> self.tokens_seq()[i].token@
                != self.tokens_seq()[j].token@
    }

    pub fn new() -> (r: SubscriberStore)
        ensures
            r.subscribers_seq() == Seq::<StoredSubscriber>::empty(),
            r.tokens_seq() == Seq::<SubscriptionToken>::empty(),
            r.wf(),
    {
        SubscriberStore { subscribers: Vec::new(), tokens: Vec::new() }
    }

    fn find_subscriber(&self, id: SubscriberId) -> (r: bool)
        ensures
            r == has_subscriber(self.subscribers_seq(), id),
    {
        let mut i: usize = 0;
        let n = self.subscribers.len();
        while i < n
            invariant
                i <= n,
                n == self.subscribers_seq().len(),
                forall|j: int| 0 <= j < i ==> self.subscribers_seq()[j].id != id,
            decreases n - i,
        {
            if self.subscribers[i].id == id {
                return true;
            }
            i = i + 1;
        }
        false
    }

    /// Records a new subscriber as pending confirmation, unless the id is
    /// already taken; nothing else changes either way.
    pub fn insert_subscriber(
        &mut self,
        id: SubscriberId,
        subscriber: NewSubscriber,
        subscribed_at: u64,
    ) -> (fresh: bool)
        ensures
            fresh == !has_subscriber(old(self).subscribers_seq(), id),
            final(self).tokens_seq() == old(self).tokens_seq(),
            !fresh ==> final(self).subscribers_seq() == old(self).subscribers_seq(),
            fresh ==> ({
                let s = final(self).subscribers_seq();
                let o = old(self).subscribers_seq();
                &&& s.len() == o.len() + 1
                &&& s.subrange(0, o.len() as int) == o
                &&& s.last().id == id
                &&& s.last().email@ == subscriber.email@
                &&& s.last().name@ == subscriber.name@
                &&& s.last().status == SubscriberStatus::PendingConfirmation
                &&& s.last().subscribed_at == subscribed_at
            }),
            old(self).wf() ==> final(self).wf(),
    {
        if self.find_subscriber(id) {
            return false;
        }
        let row = StoredSubscriber {
            id,
            email: subscriber.email.inner(),
            name: subscriber.name.inner(),
            status: SubscriberStatus::PendingConfirmation,
            subscribed_at,
        };
        self.subscribers.push(row);
        proof {
            assert(final(self).subscribers_seq().subrange(
                0,
                old(self).subscribers_seq().len() as int,
            ) =~= old(self).subscribers_seq());
            if old(self).wf() {
                let o = old(self).subscribers_seq();
                let s = self.subscribers@;
                assert forall|i: int, j: int| 0 <= i < j < s.len() implies s[i].id != s[j].id by {
                    if j < o.len() {
                        assert(s[i] == o[i] && s[j] == o[j]);
                    } else {
                        assert(s[j].id == id);
                        assert(s[i] == o[i]);
                        if s[i].id == id {
                            assert(0 <= i < o.len() && o[i].id == id);
                            assert(has_subscriber(o, id));
                        }
                    }
                }
            }
        }
        true
    }

    /// Binds a freshly issued token to a subscriber, unless the token string
    /// is already taken; nothing else changes either way.
    pub fn issue_token(&mut self, token: String, subscriber_id: SubscriberId) -> (fresh: bool)
        ensures
            fresh == (token_lookup(old(self).tokens_seq(), token@) is None),
            final(self).subscribers_seq() == old(self).subscribers_seq(),
            !fresh ==> final(self).tokens_seq() == old(self).tokens_seq(),
            fresh ==> ({
                let s = final(self).tokens_seq();
                let o = old(self).tokens_seq();
                &&& s.len() == o.len() + 1
                &&& s.subrange(0, o.len() as int) == o
                &&& s.last().token@ == token@
                &&& s.last().subscriber_id == subscriber_id
            }),
            old(self).wf() ==> final(self).wf(),
    {
        proof {
            lemma_token_lookup(self.tokens_seq(), token@);
        }
        match self.lookup_token(token.as_str()) {
            Some(_) => false,
            None => {
                self.tokens.push(SubscriptionToken { token, subscriber_id });
                proof {
                    assert(final(self).tokens_seq().subrange(
                        0,
                        old(self).tokens_seq().len() as int,
                    ) =~= old(self).tokens_seq());
                }
                true
            },
        }
    }

    fn lookup_token(&self, token: &str) -> (r: Option<SubscriberId>)
        ensures
            r == token_lookup(self.tokens_seq(), token@),
    {
        proof {
            lemma_token_lookup(self.tokens_seq(), token@);
        }
        let mut i: usize = 0;
        let n = self.tokens.len();
        while i < n
            invariant
                i <= n,
                n == self.tokens_seq().len(),
                forall|j: int| 0 <= j < i ==> self.tokens_seq()[j].token@ != token@,
                match token_lookup(self.tokens_seq(), token@) {
                    Some(id) => exists|k: int|
                        0 <= k < n && self.tokens_seq()[k].token@ == token@
                            && self.tokens_seq()[k].subscriber_id == id,
                    None => forall|j: int| 0 <= j < n ==> self.tokens_seq()[j].token@ != token@,
                },
            decreases n - i,
        {
            if str_chars_eq(self.tokens[i].token.as_str(), token) {
                proof {
                    lemma_token_lookup_first(self.tokens_seq(), token@, i as int);
                }
                return Some(self.tokens[i].subscriber_id);
            }
            i = i + 1;
        }
        None
    }

    /// Looks up which subscriber a confirmation token belongs to.
    pub fn get_subscriber_id_from_token(&self, token: &str) -> (r: Option<SubscriberId>)
        ensures
            r == token_lookup(self.tokens_seq(), token@),
    {
        self.lookup_token(token)
    }

    /// Marks the subscriber with this id as confirmed; confirming an already
    /// confirmed subscriber changes nothing.
    pub fn confirm_subscriber(&mut self, subscriber_id: SubscriberId)
        ensures
            final(self).subscribers_seq() == spec_confirm(
                old(self).subscribers_seq(),
                subscriber_id,
            ),
            final(self).tokens_seq() == old(self).tokens_seq(),
            old(self).wf() ==> final(self).wf(),
    {
        let ghost target = spec_confirm(self.subscribers_seq(), subscriber_id);
        let mut out: Vec<StoredSubscriber> = Vec::new();
        let mut i: usize = 0;
        let n = self.subscribers.len();
        while i < n
            invariant
                i <= n,
                n == self.subscribers_seq().len(),
                target == spec_confirm(self.subscribers_seq(), subscriber_id),
                out@ =~= target.take(i as int),
            decreases n - i,
        {
            let s = &self.subscribers[i];
            if s.id == subscriber_id {
                out.push(
                    StoredSubscriber {
                        id: s.id,
                        email: s.email.clone(),
                        name: s.name.clone(),
                        status: SubscriberStatus::Confirmed,
                        subscribed_at: s.subscribed_at,
                    },
                );
            } else {
                out.push(s.clone());
            }
            proof {
                assert(out@ =~= target.take(i + 1));
            }
            i = i + 1;
        }
        self.subscribers = out;
        proof {
            assert(final(self).subscribers_seq() =~= target);
        }
    }

    /// Redeems a confirmation token: when the token is known, the subscriber
    /// it is bound to becomes confirmed and their id is reported; an unknown
    /// token changes nothing and reports nothing. The token itself stays, so
    /// redemption is repeatable.
    pub fn redeem(&mut self, token: &str) -> (r: Option<SubscriberId>)
        ensures
            r == token_lookup(old(self).tokens_seq(), token@),
            final(self).tokens_seq() == old(self).tokens_seq(),
            match r {
                Some(id) => final(self).subscribers_seq() == spec_confirm(
                    old(self).subscribers_seq(),
                    id,
                ),
                None => final(self).subscribers_seq() == old(self).subscribers_seq(),
            },
            old(self).wf() ==> final(self).wf(),
    {
        match self.lookup_token(token) {
            Some(id) => {
                self.confirm_subscriber(id);
                Some(id)
            },
            None => None,
        }
    }

    /// Lists exactly the confirmed subscribers, in store order: what one
    /// newsletter publish run works through.
    pub fn get_confirmed_subscribers(&self) -> (r: Vec<StoredSubscriber>)
        ensures
            r@ == confirmed_of(self.subscribers_seq()),
    {
        let mut out: Vec<StoredSubscriber> = Vec::new();
        let mut i: usize = 0;
        let n = self.subscribers.len();
        while i < n
            invariant
                i <= n,
                n == self.subscribers_seq().len(),
                out@ == confirmed_of(self.subscribers_seq().take(i as int)),
            decreases n - i,
        {
            let s = &self.subscribers[i];
            proof {
                assert(self.subscribers_seq().take(i + 1).drop_last() =~= self.subscribers_seq()
                    .take(i as int));
                assert(self.subscribers_seq().take(i + 1).last() == self.subscribers_seq()[i as int]);
            }
            if matches!(s.status, SubscriberStatus::Confirmed) {
                out.push(s.clone());
            }
            i = i + 1;
        }
        proof {
            assert(self.subscribers_seq().take(n as int) =~= self.subscribers_seq());
        }
        out
    }

    /// Reports the status currently stored for a subscriber id.
    pub fn status_of(&self, id: SubscriberId) -> (r: Option<SubscriberStatus>)
        ensures
            match r {
                Some(st) => exists|i: int|
                    0 <= i < self.subscribers_seq().len() && self.subscribers_seq()[i].id == id
                        && self.subscribers_seq()[i].status == st,
                None => !has_subscriber(self.subscribers_seq(), id),
            },
    {
        let mut i: usize = 0;
        let n = self.subscribers.len();
        while i < n
            invariant
                i <= n,
                n == self.subscribers_seq().len(),
                forall|j: int| 0 <= j < i ==> self.subscribers_seq()[j].id != id,
            decreases n - i,
        {
            if self.subscribers[i].id == id {
                return Some(self.subscribers[i].status);
            }
            i = i + 1;
        }
        None
    }
}

proof fn lemma_token_lookup_first(toks: Seq<SubscriptionToken>, t: Seq<char>, i: int)
    requires
        0 <= i < toks.len(),
        toks[i].token@ == t,
        forall|j: int| 0 <= j < i ==> toks[j].token@ != t,
    ensures
        token_lookup(toks, t) == Some(toks[i].subscriber_id),
    decreases toks.len(),
{
    if i > 0 {
        let rest = toks.drop_first();
        assert forall|j: int| 0 <= j < i - 1 implies rest[j].token@ != t by {
            assert(rest[j] == toks[j + 1]);
        }
        assert(rest[i - 1] == toks[i]);
        lemma_token_lookup_first(rest, t, i - 1);
    }
}

/// The raw fields of a signup form.
pub struct FormData {
    pub name: String,
    pub email: String,
}

impl NewSubscriber {
    /// Validates a signup form: the email rules are checked first, then the
    /// name rules; the first offending field is handed back.
    pub fn try_from(form: FormData) -> (r: Result<NewSubscriber, String>)
        ensures
            !valid_email(form.email@) ==> (r matches Err(e) && e@ == form.email@),
            valid_email(form.email@) && !valid_subscriber_name(form.name@) ==> (r matches Err(e)
                && e@ == form.name@),
            valid_email(form.email@) && valid_subscriber_name(form.name@) ==> (r matches Ok(n)
                && n.email@ == form.email@ && n.name@ == form.name@),
    {
        let email = match SubscriberEmail::parse(form.email) {
            Ok(email) => email,
            Err(e) => {
                return Err(e);
            },
        };
        let name = match SubscriberName::try_parse(form.name) {
            Ok(name) => name,
            Err(e) => {
                return Err(e);
            },
        };
        Ok(NewSubscriber { name, email })
    }
}

/// How one signup request resolves: a form that fails validation is a bad
/// request, a store or mail-transport fault is a server error, and otherwise
/// the signup succeeded.
pub open spec fn spec_subscribe_outcome(
    parse_ok: bool,
    inserted: Result<(), StorageFault>,
    emailed: Result<(), SendFault>,
) -> u16 {
    if !parse_ok {
        400
    } else if inserted is Err {
        500
    } else if emailed is Err {
        500
    } else {
        200
    }
}

/// Maps the three steps of one signup request to its HTTP status.
pub fn subscribe_outcome(
    parse_ok: bool,
    inserted: Result<(), StorageFault>,
    emailed: Result<(), SendFault>,
) -> (status: u16)
    ensures
        status == spec_subscribe_outcome(parse_ok, inserted, emailed),
{
    if !parse_ok {
        400
    } else if inserted.is_err() {
        500
    } else if emailed.is_err() {
        500
    } else {
        200
    }
}

/// The confirmation link a new subscriber is mailed.
pub fn confirmation_link(base_url: &str, token: &str) -> (r: String)
    ensures
        r@ == base_url@ + "/subscriptions/confirm?subscription_token="@ + token@,
{
    let mut r = base_url.to_owned();
    r.append("/subscriptions/confirm?subscription_token=");
    r.append(token);
    r
}

/// The plain-text and HTML bodies of the confirmation email, each holding the
/// confirmation link.
pub fn confirmation_email_bodies(base_url: &str, token: &str) -> (r: (String, String))
    ensures
        r.0@ == "Welcome to our newsletter!\nVisit "@ + base_url@
            + "/subscriptions/confirm?subscription_token="@ + token@
            + " to confirm your subscription."@,
        r.1@ == "Welcome to our newsletter!<br />Click <a href=\""@ + base_url@
            + "/subscriptions/confirm?subscription_token="@ + token@
            + "\">here</a> to confirm your subscription."@,
{
    let link = confirmation_link(base_url, token);
    let mut plain = "Welcome to our newsletter!\nVisit ".to_owned();
    plain.append(link.as_str());
    plain.append(" to confirm your subscription.");
    let mut html = "Welcome to our newsletter!<br />Click <a href=\"".to_owned();
    html.append(link.as_str());
    html.append("\">here</a> to confirm your subscription.");
    proof {
        assert(plain@ =~= "Welcome to our newsletter!\nVisit "@ + base_url@
            + "/subscriptions/confirm?subscription_token="@ + token@
            + " to confirm your subscription."@);
        assert(html@ =~= "Welcome to our newsletter!<br />Click <a href=\""@ + base_url@
            + "/subscriptions/confirm?subscription_token="@ + token@
            + "\">here</a> to confirm your subscription."@);
    }
    (plain, html)
}

} // verus!
