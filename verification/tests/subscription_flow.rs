use z2p::domain::{NewSubscriber, SendFault, StorageFault, SubscriberId};
use z2p::subscriptions::{
    confirmation_email_bodies, confirmation_link, subscribe_outcome, FormData, SubscriberStatus,
    SubscriberStore,
};
use z2p::subscriptions_confirm::{confirm_outcome, Parameters, SubscriptionConfirmError};

const ID_1: SubscriberId = SubscriberId { value: 1 };
const ID_2: SubscriberId = SubscriberId { value: 2 };

fn new_subscriber(name: &str, email: &str) -> NewSubscriber {
    NewSubscriber::try_from(FormData {
        name: name.to_string(),
        email: email.to_string(),
    })
    .unwrap()
}

#[test]
fn subscribe_returns_200_for_valid_form_data() {
    let mut store = SubscriberStore::new();
    let parsed = NewSubscriber::try_from(FormData {
        name: "le guin".to_string(),
        email: "ursula_le_guin@gmail.com".to_string(),
    });
    assert!(parsed.is_ok());
    let fresh = store.insert_subscriber(ID_1, parsed.unwrap(), 0);
    assert!(fresh);
    let status = subscribe_outcome(true, Ok(()), Ok(()));
    assert_eq!(200, status);
    let saved = store.get_confirmed_subscribers();
    assert!(saved.is_empty());
    assert_eq!(store.status_of(ID_1), Some(SubscriberStatus::PendingConfirmation));
}

#[test]
fn subscribe_returns_400_when_data_is_missing() {
    // A form missing its email, its name, or both never parses, and the
    // request resolves to a bad request.
    let missing_email = NewSubscriber::try_from(FormData {
        name: "le guin".to_string(),
        email: String::new(),
    });
    assert!(missing_email.is_err());
    let missing_name = NewSubscriber::try_from(FormData {
        name: String::new(),
        email: "urslula_leguin@gmail".to_string(),
    });
    assert!(missing_name.is_err());
    let missing_both = NewSubscriber::try_from(FormData {
        name: String::new(),
        email: String::new(),
    });
    assert!(missing_both.is_err());
    assert_eq!(400, subscribe_outcome(false, Ok(()), Ok(())));
}

#[test]
fn subscribe_faults_map_to_server_errors() {
    assert_eq!(500, subscribe_outcome(true, Err(StorageFault), Ok(())));
    assert_eq!(500, subscribe_outcome(true, Ok(()), Err(SendFault)));
}

#[test]
fn insert_with_taken_id_changes_nothing() {
    let mut store = SubscriberStore::new();
    assert!(store.insert_subscriber(ID_1, new_subscriber("le guin", "ursula@gmail.com"), 0));
    assert!(!store.insert_subscriber(ID_1, new_subscriber("other", "other@gmail.com"), 1));
}

#[test]
fn issue_with_taken_token_changes_nothing() {
    let mut store = SubscriberStore::new();
    assert!(store.insert_subscriber(ID_1, new_subscriber("le guin", "ursula@gmail.com"), 0));
    assert!(store.issue_token("tok-one".to_string(), ID_1));
    assert!(!store.issue_token("tok-one".to_string(), ID_2));
}

#[test]
fn redeeming_an_unknown_token_is_unauthorized_not_a_server_error() {
    let mut store = SubscriberStore::new();
    let parameters = Parameters {
        subscription_token: "never-issued".to_string(),
    };
    let r = store.redeem(&parameters.subscription_token);
    assert_eq!(r, None);
    assert_eq!(401, confirm_outcome(&Ok(r)));
    assert_eq!(500, confirm_outcome(&Err(StorageFault)));
    assert_eq!(500, SubscriptionConfirmError::UnexpectedError.status_code());
}

#[test]
fn redeeming_a_valid_token_twice_is_idempotent() {
    let mut store = SubscriberStore::new();
    assert!(store.insert_subscriber(ID_1, new_subscriber("le guin", "ursula@gmail.com"), 0));
    assert!(store.issue_token("my-token".to_string(), ID_1));

    let first = store.redeem("my-token");
    assert_eq!(first, Some(ID_1));
    assert_eq!(store.status_of(ID_1), Some(SubscriberStatus::Confirmed));

    let second = store.redeem("my-token");
    assert_eq!(second, Some(ID_1));
    assert_eq!(store.status_of(ID_1), Some(SubscriberStatus::Confirmed));
    assert_eq!(200, confirm_outcome(&Ok(second)));
}

#[test]
fn confirmation_scenario_end_to_end() {
    // Signup creates a pending subscriber and a token is issued; the first
    // confirmation succeeds and confirms, a second identical request still
    // succeeds.
    let mut store = SubscriberStore::new();
    let form = FormData {
        name: "le guin".to_string(),
        email: "ursula_le_guin@gmail.com".to_string(),
    };
    let parsed = NewSubscriber::try_from(form).unwrap();
    assert!(store.insert_subscriber(ID_1, parsed, 42));
    assert_eq!(store.status_of(ID_1), Some(SubscriberStatus::PendingConfirmation));
    assert!(store.issue_token("scenario-token".to_string(), ID_1));

    let first = store.redeem("scenario-token");
    assert_eq!(200, confirm_outcome(&Ok(first)));
    assert_eq!(store.status_of(ID_1), Some(SubscriberStatus::Confirmed));

    let second = store.redeem("scenario-token");
    assert_eq!(200, confirm_outcome(&Ok(second)));
    assert_eq!(store.status_of(ID_1), Some(SubscriberStatus::Confirmed));
}

#[test]
fn confirmation_link_and_bodies_carry_the_token() {
    let link = confirmation_link("https://news.example.org", "my-token");
    assert_eq!(
        link,
        "https://news.example.org/subscriptions/confirm?subscription_token=my-token"
    );
    let (plain, html) = confirmation_email_bodies("https://news.example.org", "my-token");
    assert_eq!(
        plain,
        "Welcome to our newsletter!\nVisit https://news.example.org/subscriptions/confirm?subscription_token=my-token to confirm your subscription."
    );
    assert_eq!(
        html,
        "Welcome to our newsletter!<br />Click <a href=\"https://news.example.org/subscriptions/confirm?subscription_token=my-token\">here</a> to confirm your subscription."
    );
}
