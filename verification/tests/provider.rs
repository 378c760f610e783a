use sms_verification::provider::mock::{
    MockProvider, TEST_COUNTRY, TEST_MSG, TEST_NUM, TEST_ORIG, TEST_TIME,
};
use sms_verification::provider::{
    instantiate_with_provider, select_any_number, select_latest_message,
    select_latest_message_from, select_number_for_country, Message, Number, ProviderClient,
};
use sms_verification::Error;

fn num(number: &str, country: Option<&str>, created_at: Option<i64>) -> Number {
    Number {
        number: number.to_string(),
        country: country.map(String::from),
        created_at,
    }
}

fn msg(body: &str, originator: Option<&str>, created_at: Option<i64>) -> Message {
    Message {
        body: body.to_string(),
        originator: originator.map(String::from),
        created_at,
    }
}

/// A provider whose account holds nothing at all.
struct EmptyProvider;

impl ProviderClient for EmptyProvider {
    fn get_all_numbers(&mut self) -> Result<Vec<Number>, Error> {
        Ok(Vec::new())
    }

    fn get_messages(&mut self, _number: &Number) -> Result<Vec<Message>, Error> {
        Ok(Vec::new())
    }
}

#[test]
fn test_get_latest_msg_from() {
    let mut p = MockProvider::default();

    let num = p.get_any_number();
    assert!(num.is_ok());

    let num = num.expect("ok");
    assert_eq!(num.number, TEST_NUM);
    assert_eq!(num.country, Some(String::from(TEST_COUNTRY)));
    assert!(num.created_at.is_some());

    let msg = p.get_latest_message_from(&num, TEST_ORIG);
    assert!(msg.is_ok());

    let msg = msg.expect("ok");
    assert_eq!(msg.originator, Some(String::from(TEST_ORIG)));
    assert!(msg.created_at.is_some());
}

#[test]
fn scenario_single_number_and_message() {
    let mut p = MockProvider::default();

    let n = p.get_any_number().expect("a number");
    assert_eq!(n.number, "123456789");
    assert_eq!(n.country, Some(String::from("US")));
    assert_eq!(n.created_at, Some(TEST_TIME));

    let m = p.get_latest_message_from(&n, "Test").expect("a message");
    assert_eq!(m.body, "Hello there");
    assert_eq!(m.originator, Some(String::from("Test")));
    assert_eq!(m.created_at, Some(TEST_TIME));

    let missing = p.get_latest_message_from(&n, "Other");
    assert!(matches!(missing, Err(Error::NotFound)));
}

#[test]
fn scenario_empty_number_list() {
    let mut p = EmptyProvider;
    let r = p.get_any_number();
    assert!(matches!(r, Err(Error::NotFound)));
}

#[test]
fn any_number_returns_first_unmodified() {
    let numbers = vec![
        num("111", Some("DE"), Some(5)),
        num("222", Some("US"), Some(9)),
    ];
    let r = select_any_number(&numbers).expect("non-empty");
    assert_eq!(r.number, "111");
    assert_eq!(r.country, Some(String::from("DE")));
    assert_eq!(r.created_at, Some(5));
}

#[test]
fn any_number_of_empty_list_is_not_found() {
    let r = select_any_number(&Vec::new());
    assert!(matches!(r, Err(Error::NotFound)));
}

#[test]
fn country_match_is_exact_and_first() {
    let numbers = vec![
        num("111", None, None),
        num("222", Some("us"), None),
        num("333", Some("US"), None),
        num("444", Some("US"), Some(7)),
    ];
    // Case-sensitive: "us" does not match "US"; the first exact match wins.
    let r = select_number_for_country(&numbers, "US").expect("a match");
    assert_eq!(r.number, "333");
    // A number with an absent country never matches.
    let r = select_number_for_country(&numbers, "");
    assert!(matches!(r, Err(Error::NotFound)));
    // No number carries this country at all.
    let r = select_number_for_country(&numbers, "FR");
    assert!(matches!(r, Err(Error::NotFound)));
}

#[test]
fn latest_message_takes_maximum_timestamp() {
    let msgs = vec![
        msg("second", None, Some(10)),
        msg("third", Some("A"), Some(30)),
        msg("first", Some("B"), Some(20)),
    ];
    let r = select_latest_message(&msgs).expect("non-empty");
    assert_eq!(r.body, "third");
}

#[test]
fn latest_message_absent_timestamp_sorts_oldest() {
    let msgs = vec![msg("untimed", Some("A"), None), msg("timed", Some("B"), Some(1))];
    let r = select_latest_message(&msgs).expect("non-empty");
    assert_eq!(r.body, "timed");

    let only_untimed = vec![msg("untimed", Some("A"), None)];
    let r = select_latest_message(&only_untimed).expect("non-empty");
    assert_eq!(r.body, "untimed");
}

#[test]
fn latest_message_tie_keeps_original_order() {
    // Equal timestamps: the stable descending sort keeps the earlier
    // message first, so it wins.
    let msgs = vec![msg("early", None, Some(5)), msg("late", None, Some(5))];
    let r = select_latest_message(&msgs).expect("non-empty");
    assert_eq!(r.body, "early");
}

#[test]
fn latest_message_of_empty_list_is_not_found() {
    let r = select_latest_message(&Vec::new());
    assert!(matches!(r, Err(Error::NotFound)));
}

#[test]
fn latest_message_from_takes_newest_match() {
    let msgs = vec![
        msg("old from a", Some("A"), Some(10)),
        msg("newest overall", Some("B"), Some(40)),
        msg("new from a", Some("A"), Some(30)),
        msg("anonymous", None, Some(50)),
    ];
    let r = select_latest_message_from(&msgs, "A").expect("a match");
    assert_eq!(r.body, "new from a");
    let r = select_latest_message_from(&msgs, "B").expect("a match");
    assert_eq!(r.body, "newest overall");
    // A message with an absent originator never matches.
    let r = select_latest_message_from(&msgs, "C");
    assert!(matches!(r, Err(Error::NotFound)));
}

#[test]
fn latest_message_from_tie_keeps_original_order() {
    let msgs = vec![
        msg("early", Some("A"), Some(5)),
        msg("late", Some("A"), Some(5)),
        msg("other", Some("B"), Some(9)),
    ];
    let r = select_latest_message_from(&msgs, "A").expect("a match");
    assert_eq!(r.body, "early");
}

#[test]
fn derived_operations_are_idempotent() {
    let mut p = MockProvider::default();

    let n1 = p.get_any_number().expect("ok");
    let n2 = p.get_any_number().expect("ok");
    assert_eq!(n1.number, n2.number);
    assert_eq!(n1.country, n2.country);
    assert_eq!(n1.created_at, n2.created_at);

    let c1 = p.get_number_for_country("US").expect("ok");
    let c2 = p.get_number_for_country("US").expect("ok");
    assert_eq!(c1.number, c2.number);
    assert_eq!(c1.country, c2.country);
    assert_eq!(c1.created_at, c2.created_at);

    let m1 = p.get_latest_message(&n1).expect("ok");
    let m2 = p.get_latest_message(&n1).expect("ok");
    assert_eq!(m1.body, m2.body);
    assert_eq!(m1.originator, m2.originator);
    assert_eq!(m1.created_at, m2.created_at);

    let f1 = p.get_latest_message_from(&n1, TEST_ORIG).expect("ok");
    let f2 = p.get_latest_message_from(&n1, TEST_ORIG).expect("ok");
    assert_eq!(f1.body, f2.body);
    assert_eq!(f1.originator, f2.originator);
    assert_eq!(f1.created_at, f2.created_at);
}

#[test]
fn mock_message_body_is_fixed() {
    let mut p = MockProvider::default();
    let n = p.get_any_number().expect("ok");
    let m = p.get_latest_message(&n).expect("ok");
    assert_eq!(m.body, TEST_MSG);
}

#[test]
fn instantiate_with_provider_builds_a_provider() {
    let mut p = instantiate_with_provider::<MockProvider>();
    let n = p.get_any_number().expect("ok");
    assert_eq!(n.number, TEST_NUM);
}

#[test]
fn cloned_records_keep_their_fields() {
    let n = num("111", Some("DE"), Some(5));
    let c = n.clone();
    assert_eq!(c.number, n.number);
    assert_eq!(c.country, n.country);
    assert_eq!(c.created_at, n.created_at);

    let m = msg("body", None, None);
    let c = m.clone();
    assert_eq!(c.body, m.body);
    assert_eq!(c.originator, m.originator);
    assert_eq!(c.created_at, m.created_at);
}

#[test]
fn error_descriptions() {
    assert_eq!(Error::NotFound.describe(), "Resource could not be found");
    let e = Error::Transport(String::from("connection reset"));
    assert_eq!(e.describe(), "connection reset");
}

#[test]
fn upmasked_endpoint_paths() {
    assert_eq!(
        sms_verification::provider::upmasked::numbers_path(),
        "/api/sms/numbers"
    );
    assert_eq!(
        sms_verification::provider::upmasked::messages_path("123456789"),
        "/api/sms/messages/123456789"
    );
}
