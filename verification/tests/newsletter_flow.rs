use argon2::{Argon2, PasswordHash, PasswordHasher};
use z2p::authentication::{basic_authentication, validate_credentials, AuthError, HeaderFault};
use z2p::domain::{NewSubscriber, SubscriberId, UserId};
use z2p::newsletters::{
    classify_auth_error, dispatch_report, plan_dispatch, publish_response, PublishError,
};
use z2p::subscriptions::{FormData, SubscriberStore};

fn confirmed_store(rows: &[(u128, &str)]) -> SubscriberStore {
    let mut store = SubscriberStore::new();
    for (value, email) in rows {
        let id = SubscriberId { value: *value };
        let parsed = NewSubscriber::try_from(FormData {
            name: "reader".to_string(),
            email: email.to_string(),
        })
        .unwrap();
        assert!(store.insert_subscriber(id, parsed, 0));
        let token = format!("token-{}", value);
        assert!(store.issue_token(token.clone(), id));
        assert_eq!(store.redeem(&token), Some(id));
    }
    store
}

#[test]
fn pending_subscribers_are_never_dispatched() {
    let mut store = confirmed_store(&[(1, "one@example.org"), (2, "two@example.org")]);
    let pending = NewSubscriber::try_from(FormData {
        name: "pending reader".to_string(),
        email: "three@example.org".to_string(),
    })
    .unwrap();
    assert!(store.insert_subscriber(SubscriberId { value: 3 }, pending, 0));

    let listed = store.get_confirmed_subscribers();
    assert_eq!(listed.len(), 2);
    assert!(listed.iter().all(|s| s.email != "three@example.org"));
    assert!(listed.iter().any(|s| s.email == "one@example.org"));
    assert!(listed.iter().any(|s| s.email == "two@example.org"));
}

#[test]
fn dispatch_skips_one_invalid_email_and_mails_the_rest() {
    // Three confirmed subscribers; one stored email no longer passes the
    // format rules, so it is edited in the fetched rows the way a stale
    // store row would look. The dispatcher mails the other two and records
    // one skip.
    let store = confirmed_store(&[
        (1, "one@example.org"),
        (2, "mid@example.org"),
        (3, "three@example.org"),
    ]);
    let mut rows = store.get_confirmed_subscribers();
    rows[1].email = "not-an-email".to_string();
    let plan = plan_dispatch(&rows);
    assert_eq!(plan.recipients, vec!["one@example.org", "three@example.org"]);
    assert_eq!(plan.skipped, 1);

    // The transport fails for the first recipient: the run still completes,
    // the report counts both, and the request still succeeds.
    let outcomes = vec![false, true];
    let report = dispatch_report(&outcomes, plan.skipped);
    assert_eq!(report.sent, 1);
    assert_eq!(report.failed, 1);
    assert_eq!(report.skipped, 1);
    let resp = publish_response(&Ok(report));
    assert_eq!(resp.status, 200);
    assert!(resp.www_authenticate.is_none());
}

#[test]
fn publish_with_valid_auth_and_one_confirmed_subscriber() {
    // One confirmed subscriber, valid Basic Auth: the run plans exactly one
    // transport call and the request answers success.
    let hash: PasswordHash = Argon2::default()
        .hash_password_with_salt(b"everythinghastostartsomewhere", b"a-test-only-salt")
        .expect("hashing failed");
    let stored = hash.to_string();
    let fallback_hash: PasswordHash = Argon2::default()
        .hash_password_with_salt(b"fallback-password-value", b"a-test-only-salt")
        .expect("hashing failed");
    let fallback = fallback_hash.to_string();

    let header = format!(
        "Basic {}",
        base64::encode("ursula:everythinghastostartsomewhere")
    );
    let credentials = basic_authentication(Some(&header)).unwrap();
    assert_eq!(credentials.username, "ursula");
    let user = UserId { value: 9 };
    let authenticated = validate_credentials(&credentials, Ok(Some((user, stored))), &fallback);
    assert_eq!(authenticated, Ok(user));

    let store = confirmed_store(&[(1, "one@example.org")]);
    let rows = store.get_confirmed_subscribers();
    let plan = plan_dispatch(&rows);
    assert_eq!(plan.recipients, vec!["one@example.org"]);
    assert_eq!(plan.skipped, 0);

    let outcomes = vec![true];
    let report = dispatch_report(&outcomes, plan.skipped);
    assert_eq!(report.sent, 1);
    assert_eq!(report.failed, 0);
    assert_eq!(publish_response(&Ok(report)).status, 200);
}

#[test]
fn publish_without_authorization_header_is_challenged() {
    assert!(matches!(basic_authentication(None), Err(HeaderFault::Missing)));
    let resp = publish_response(&Err(PublishError::AuthError));
    assert_eq!(resp.status, 401);
    assert_eq!(
        resp.www_authenticate.as_deref(),
        Some("Basic realm=\"publish\"")
    );
}

#[test]
fn publish_listing_fault_is_a_server_error() {
    assert_eq!(
        classify_auth_error(AuthError::UnexpectedError),
        PublishError::UnexpectedError
    );
    assert_eq!(
        classify_auth_error(AuthError::InvalidCredentialsError),
        PublishError::AuthError
    );
    let resp = publish_response(&Err(PublishError::UnexpectedError));
    assert_eq!(resp.status, 500);
    assert!(resp.www_authenticate.is_none());
}

#[test]
fn dispatch_report_counts_every_outcome_once() {
    let outcomes = vec![true, false, true, true, false];
    let report = dispatch_report(&outcomes, 2);
    assert_eq!(report.sent, 3);
    assert_eq!(report.failed, 2);
    assert_eq!(report.skipped, 2);
    assert_eq!(report.sent + report.failed + report.skipped, 7);
}
