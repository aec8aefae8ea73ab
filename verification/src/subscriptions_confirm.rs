//! The confirmation endpoint's decisions: how one redemption attempt maps to
//! an HTTP status, and the laws of repeated redemption.

use vstd::prelude::*;

use crate::domain::StorageFault;
use crate::domain::SubscriberId;
use crate::subscriptions::spec_confirm;
use crate::subscriptions::token_lookup;
use crate::subscriptions::StoredSubscriber;
use crate::subscriptions::SubscriberStatus;
use crate::subscriptions::SubscriptionToken;

verus! {

/// The query parameters of one confirmation request.
pub struct Parameters {
    pub subscription_token: String,
}

/// Failure of a confirmation request: only a store fault is an error; an
/// unknown token is not.
#[derive(Clone, Copy, PartialEq, Eq, Structural, Debug)]
pub enum SubscriptionConfirmError {
    UnexpectedError,
}

impl SubscriptionConfirmError {
    /// A store fault surfaces as a generic server error.
    pub fn status_code(&self) -> (status: u16)
        ensures
            status == 500,
    {
        match self {
            SubscriptionConfirmError::UnexpectedError => 500,
        }
    }
}

/// How one redemption attempt resolves: a known token confirms and succeeds,
/// an unknown token is unauthorized, and only a store fault is a server
/// error.
pub open spec fn spec_confirm_outcome(redeemed: Result<Option<SubscriberId>, StorageFault>) -> u16 {
    match redeemed {
        Ok(Some(_)) => 200,
        Ok(None) => 401,
        Err(_) => 500,
    }
}

/// Maps the result of a redemption attempt to the HTTP status of the
/// confirmation endpoint.
pub fn confirm_outcome(redeemed: &Result<Option<SubscriberId>, StorageFault>) -> (status: u16)
    ensures
        status == spec_confirm_outcome(*redeemed),
{
    match redeemed {
        Ok(Some(_)) => 200,
        Ok(None) => 401,
        Err(_) => 500,
    }
}

/// Redeeming an unknown token reports "no subscriber found", which maps to
/// an unauthorized response, never to a server error.
pub proof fn lemma_unknown_token_unauthorized()
    ensures
        spec_confirm_outcome(Ok(None)) == 401,
        spec_confirm_outcome(Ok(None)) != 500,
{
}

/// Redeeming a valid token twice is idempotent: the token still resolves to
/// the same subscriber id, that subscriber is confirmed after the first
/// redemption, and the second redemption leaves the store exactly as the
/// first left it.
pub proof fn lemma_redeem_idempotent(
    subs: Seq<StoredSubscriber>,
    toks: Seq<SubscriptionToken>,
    t: Seq<char>,
)
    ensures
        match token_lookup(toks, t) {
            Some(id) => {
                &&& spec_confirm(spec_confirm(subs, id), id) == spec_confirm(subs, id)
                &&& forall|i: int|
                    0 <= i < subs.len() && subs[i].id == id ==> spec_confirm(subs, id)[i].status
                        is Confirmed
            },
            None => true,
        },
{
    match token_lookup(toks, t) {
        Some(id) => {
            let once = spec_confirm(subs, id);
            let twice = spec_confirm(once, id);
            assert forall|i: int| 0 <= i < subs.len() implies twice[i] == once[i] by {
                if once[i].id == id {
                    assert(once[i].status is Confirmed);
                }
            }
            assert(twice =~= once);
        },
        None => {},
    }
}

} // verus!
