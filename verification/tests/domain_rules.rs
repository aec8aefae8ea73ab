use z2p::domain::{NewSubscriber, SubscriberEmail, SubscriberName};
use z2p::subscriptions::FormData;

#[test]
fn name_accepts_ordinary_text() {
    let name = SubscriberName::try_parse("le guin".to_string()).unwrap();
    assert_eq!(name.inner_ref(), "le guin");
    assert_eq!(name.inner(), "le guin");
}

#[test]
fn name_rejects_empty_and_whitespace_only() {
    assert_eq!(SubscriberName::try_parse(String::new()).err().unwrap(), "");
    assert_eq!(
        SubscriberName::try_parse("   \t\n".to_string()).err().unwrap(),
        "   \t\n"
    );
    // Non-ASCII whitespace trims to nothing too.
    assert!(SubscriberName::try_parse("\u{a0}\u{2003}".to_string()).is_err());
}

#[test]
fn name_length_is_counted_in_graphemes() {
    let ok: String = "a".repeat(256);
    assert!(SubscriberName::try_parse(ok).is_ok());
    let too_long: String = "a".repeat(257);
    assert!(SubscriberName::try_parse(too_long).is_err());
    // 200 graphemes of two chars each: 400 chars, but well under 256 graphemes.
    let accented: String = "a\u{0301}".repeat(200);
    assert_eq!(accented.chars().count(), 400);
    assert!(SubscriberName::try_parse(accented).is_ok());
    // The same pair repeated 300 times is 300 graphemes: too long.
    let accented_long: String = "a\u{0301}".repeat(300);
    assert!(SubscriberName::try_parse(accented_long).is_err());
}

#[test]
fn name_rejects_forbidden_characters() {
    for c in ['/', '(', ')', '"', '<', '>', '\\', '{', '}'] {
        let candidate = format!("le{}guin", c);
        assert!(SubscriberName::try_parse(candidate.clone()).is_err());
    }
}

#[test]
fn email_accepts_ordinary_address() {
    let email = SubscriberEmail::parse("ursula_le_guin@gmail.com".to_string()).unwrap();
    assert_eq!(email.as_str(), "ursula_le_guin@gmail.com");
}

#[test]
fn email_rejects_malformed_addresses() {
    assert!(SubscriberEmail::parse(String::new()).is_err());
    assert!(SubscriberEmail::parse("ursula.gmail.com".to_string()).is_err());
    assert!(SubscriberEmail::parse("a@b@c".to_string()).is_err());
    assert!(SubscriberEmail::parse("@gmail.com".to_string()).is_err());
    assert!(SubscriberEmail::parse("ursula@".to_string()).is_err());
    assert!(SubscriberEmail::parse("ursula le guin@gmail.com".to_string()).is_err());
}

#[test]
fn new_subscriber_validates_both_fields() {
    let ok = NewSubscriber::try_from(FormData {
        name: "le guin".to_string(),
        email: "ursula_le_guin@gmail.com".to_string(),
    })
    .unwrap();
    assert_eq!(ok.name.inner_ref(), "le guin");
    assert_eq!(ok.email.as_str(), "ursula_le_guin@gmail.com");

    let bad_email = NewSubscriber::try_from(FormData {
        name: "le guin".to_string(),
        email: "not-an-email".to_string(),
    });
    assert_eq!(bad_email.err().unwrap(), "not-an-email");

    let bad_name = NewSubscriber::try_from(FormData {
        name: "le/guin".to_string(),
        email: "ursula_le_guin@gmail.com".to_string(),
    });
    assert_eq!(bad_name.err().unwrap(), "le/guin");
}
