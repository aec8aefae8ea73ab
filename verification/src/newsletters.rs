//! Newsletter fan-out: planning one publish run over the confirmed
//! subscribers, isolating per-recipient failures, and mapping outcomes to
//! the publish endpoint's responses.

use vstd::prelude::*;

use crate::authentication::AuthError;
use crate::domain::valid_email;
use crate::subscriptions::confirmed_of;
use crate::subscriptions::StoredSubscriber;

verus! {

/// The body of one newsletter issue.
pub struct BodyData {
    pub title: String,
    pub content: Content,
}

/// Both renderings of the issue.
pub struct Content {
    pub html: String,
    pub text: String,
}

/// Failure of a publish request: bad authentication, or a fault while
/// listing the subscribers.
#[derive(Clone, Copy, PartialEq, Eq, Structural, Debug)]
pub enum PublishError {
    AuthError,
    UnexpectedError,
}

/// Folds a classified authentication failure into the publish taxonomy:
/// rejected credentials stay an authentication failure, a store fault stays
/// a server fault.
pub fn classify_auth_error(e: AuthError) -> (r: PublishError)
    ensures
        r == match e {
            AuthError::InvalidCredentialsError => PublishError::AuthError,
            AuthError::UnexpectedError => PublishError::UnexpectedError,
        },
{
    match e {
        AuthError::InvalidCredentialsError => PublishError::AuthError,
        AuthError::UnexpectedError => PublishError::UnexpectedError,
    }
}

/// What the publish endpoint answers: a status, and for rejected
/// authentication the challenge header that must accompany it.
pub struct PublishResponse {
    pub status: u16,
    pub www_authenticate: Option<String>,
}

/// The status each publish failure maps to.
pub open spec fn spec_error_status(e: PublishError) -> u16 {
    match e {
        PublishError::AuthError => 401,
        PublishError::UnexpectedError => 500,
    }
}

impl PublishError {
    /// The response for this failure; rejected authentication carries the
    /// `WWW-Authenticate` challenge for the publish realm.
    pub fn error_response(&self) -> (r: PublishResponse)
        ensures
            r.status == spec_error_status(*self),
            *self is AuthError ==> (r.www_authenticate matches Some(v) && v@
                == "Basic realm=\"publish\""@),
            *self is UnexpectedError ==> r.www_authenticate is None,
    {
        match self {
            PublishError::AuthError => PublishResponse {
                status: 401,
                www_authenticate: Some("Basic realm=\"publish\"".to_owned()),
            },
            PublishError::UnexpectedError => PublishResponse {
                status: 500,
                www_authenticate: None,
            },
        }
    }
}

/// The aggregate outcome of one publish run; every confirmed subscriber is
/// counted in exactly one of the three tallies.
#[derive(Clone, Copy, PartialEq, Eq, Structural, Debug)]
pub struct DispatchReport {
    pub sent: usize,
    pub failed: usize,
    pub skipped: usize,
}

/// The stored emails that pass the signup format rules, in store order.
pub open spec fn valid_emails_of(s: Seq<StoredSubscriber>) -> Seq<Seq<char>>
    decreases s.len(),
{
    if s.len() == 0 {
        Seq::empty()
    } else if valid_email(s.last().email@) {
        valid_emails_of(s.drop_last()).push(s.last().email@)
    } else {
        valid_emails_of(s.drop_last())
    }
}

/// How many rows hold an email that no longer passes the format rules.
pub open spec fn invalid_email_count(s: Seq<StoredSubscriber>) -> nat
    decreases s.len(),
{
    if s.len() == 0 {
        0
    } else {
        invalid_email_count(s.drop_last()) + if valid_email(s.last().email@) {
            0nat
        } else {
            1nat
        }
    }
}

/// Every row of one publish run is either a recipient or a skip: the valid
/// emails and the invalid rows together account for each subscriber exactly
/// once.
pub proof fn lemma_dispatch_partition(s: Seq<StoredSubscriber>)
    ensures
        valid_emails_of(s).len() + invalid_email_count(s) == s.len(),
    decreases s.len(),
{
    if s.len() > 0 {
        lemma_dispatch_partition(s.drop_last());
    }
}

/// One publish run, before any mail is sent: who will be mailed, and how
/// many rows were skipped for an invalid stored email.
pub struct DispatchPlan {
    pub recipients: Vec<String>,
    pub skipped: usize,
}

/// Validates the stored email of every row: rows with a valid email become
/// the recipients, in order; each invalid row is counted as one skip and
/// never aborts the run.
pub fn plan_dispatch(subscribers: &Vec<StoredSubscriber>) -> (plan: DispatchPlan)
    ensures
        plan.recipients@.map_values(|e: String| e@) == valid_emails_of(subscribers@),
        plan.skipped == invalid_email_count(subscribers@),
        plan.recipients@.len() + plan.skipped == subscribers@.len(),
{
    proof {
        lemma_dispatch_partition(subscribers@);
    }
    let mut recipients: Vec<String> = Vec::new();
    let mut skipped: usize = 0;
    let mut i: usize = 0;
    let n = subscribers.len();
    while i < n
        invariant
            i <= n,
            n == subscribers@.len(),
            recipients@.map_values(|e: String| e@) =~= valid_emails_of(subscribers@.take(i as int)),
            skipped == invalid_email_count(subscribers@.take(i as int)),
            recipients@.len() + skipped == i,
        decreases n - i,
    {
        let s = &subscribers[i];
        proof {
            assert(subscribers@.take(i + 1).drop_last() =~= subscribers@.take(i as int));
            assert(subscribers@.take(i + 1).last() == subscribers@[i as int]);
        }
        if crate::domain::is_email_valid(s.email.as_str()) {
            recipients.push(s.email.clone());
            proof {
                assert(recipients@.map_values(|e: String| e@) =~= valid_emails_of(
                    subscribers@.take(i + 1),
                ));
            }
        } else {
            skipped = skipped + 1;
        }
        i = i + 1;
    }
    proof {
        assert(subscribers@.take(n as int) =~= subscribers@);
    }
    DispatchPlan { recipients, skipped }
}

/// How many sends succeeded.
pub open spec fn count_true(s: Seq<bool>) -> nat
    decreases s.len(),
{
    if s.len() == 0 {
        0
    } else {
        count_true(s.drop_last()) + if s.last() {
            1nat
        } else {
            0nat
        }
    }
}

/// Tallies one publish run from the per-recipient send outcomes and the
/// skips recorded while planning: successes are sent, the rest failed, and
/// no outcome is dropped.
pub fn dispatch_report(outcomes: &Vec<bool>, skipped: usize) -> (r: DispatchReport)
    ensures
        r.sent == count_true(outcomes@),
        r.sent + r.failed == outcomes@.len(),
        r.skipped == skipped,
{
    let mut sent: usize = 0;
    let mut i: usize = 0;
    let n = outcomes.len();
    while i < n
        invariant
            i <= n,
            n == outcomes@.len(),
            sent == count_true(outcomes@.take(i as int)),
            sent <= i,
        decreases n - i,
    {
        proof {
            assert(outcomes@.take(i + 1).drop_last() =~= outcomes@.take(i as int));
            assert(outcomes@.take(i + 1).last() == outcomes@[i as int]);
        }
        if outcomes[i] {
            sent = sent + 1;
        }
        i = i + 1;
    }
    proof {
        assert(outcomes@.take(n as int) =~= outcomes@);
    }
    DispatchReport { sent, failed: n - sent, skipped }
}

/// The status of one publish request: success whenever the subscriber
/// listing could be read, whatever the per-recipient outcomes were.
pub open spec fn spec_publish_status(r: Result<DispatchReport, PublishError>) -> u16 {
    match r {
        Ok(_) => 200,
        Err(e) => spec_error_status(e),
    }
}

/// Maps one publish run's result to its response.
pub fn publish_response(r: &Result<DispatchReport, PublishError>) -> (resp: PublishResponse)
    ensures
        resp.status == spec_publish_status(*r),
        (r matches Err(PublishError::AuthError)) ==> (resp.www_authenticate matches Some(v) && v@
            == "Basic realm=\"publish\""@),
        !(r matches Err(PublishError::AuthError)) ==> resp.www_authenticate is None,
{
    match r {
        Ok(_) => PublishResponse { status: 200, www_authenticate: None },
        Err(e) => e.error_response(),
    }
}

proof fn lemma_count_true_le(s: Seq<bool>)
    ensures
        count_true(s) <= s.len(),
    decreases s.len(),
{
    if s.len() > 0 {
        lemma_count_true_le(s.drop_last());
    }
}

/// Over one full run, with one send outcome per planned recipient, the
/// report accounts for every confirmed subscriber exactly once: the
/// successes, the send failures and the skipped rows add up to the whole
/// listing.
pub proof fn lemma_report_accounts_for_every_subscriber(
    s: Seq<StoredSubscriber>,
    outcomes: Seq<bool>,
)
    requires
        outcomes.len() == valid_emails_of(s).len(),
    ensures
        count_true(outcomes) <= outcomes.len(),
        count_true(outcomes) + (outcomes.len() - count_true(outcomes)) + invalid_email_count(s)
            == s.len(),
{
    lemma_count_true_le(outcomes);
    lemma_dispatch_partition(s);
}

/// Individual send failures never fail the publish request: any run whose
/// subscriber listing succeeded answers success, whatever its report says.
pub proof fn lemma_send_failures_do_not_fail_publish(report: DispatchReport)
    ensures
        spec_publish_status(Ok(report)) == 200,
{
}

/// A pending subscriber never appears in the set one publish run works
/// through; a confirmed one always does.
pub proof fn lemma_dispatch_set(s: Seq<StoredSubscriber>, i: int)
    requires
        0 <= i < s.len(),
    ensures
        (s[i].status is Confirmed) <==> confirmed_of(s).contains(s[i]),
{
    lemma_confirmed_of_sound(s);
    if s[i].status is Confirmed {
        lemma_confirmed_of_complete(s, i);
    } else {
        if confirmed_of(s).contains(s[i]) {
            let k = choose|k: int| 0 <= k < confirmed_of(s).len() && confirmed_of(s)[k] == s[i];
            assert(confirmed_of(s)[k].status is Confirmed);
        }
    }
}

proof fn lemma_confirmed_of_sound(s: Seq<StoredSubscriber>)
    ensures
        forall|j: int|
            0 <= j < confirmed_of(s).len() ==> (#[trigger] confirmed_of(s)[j]).status is Confirmed,
    decreases s.len(),
{
    if s.len() > 0 {
        let p = s.drop_last();
        lemma_confirmed_of_sound(p);
        if s.last().status is Confirmed {
            assert forall|j: int|
                0 <= j < confirmed_of(s).len() implies (#[trigger] confirmed_of(
                s,
            )[j]).status is Confirmed by {
                if j < confirmed_of(p).len() {
                    assert(confirmed_of(s)[j] == confirmed_of(p)[j]);
                } else {
                    assert(confirmed_of(s)[j] == s.last());
                }
            }
        }
    }
}

proof fn lemma_confirmed_of_complete(s: Seq<StoredSubscriber>, i: int)
    requires
        0 <= i < s.len(),
        s[i].status is Confirmed,
    ensures
        confirmed_of(s).contains(s[i]),
    decreases s.len(),
{
    let p = s.drop_last();
    if i == s.len() - 1 {
        assert(confirmed_of(s)[confirmed_of(p).len() as int] == s[i]);
    } else {
        assert(p[i] == s[i]);
        lemma_confirmed_of_complete(p, i);
        let k = choose|k: int| 0 <= k < confirmed_of(p).len() && confirmed_of(p)[k] == s[i];
        if s.last().status is Confirmed {
            assert(confirmed_of(s)[k] == s[i]);
        }
    }
}

} // verus!
