use jmap_client::email::query::{Comparator, Filter};
use jmap_client::template::URLPart;
use jmap_client::Error;

#[test]
fn expansion_is_deterministic_and_total() {
    let parts =
        URLPart::parse("https://h/download/{accountId}/{blobId}?type={type}").unwrap();
    let params = vec![
        (String::from("accountId"), String::from("A13")),
        (String::from("blobId"), String::from("G abc")),
        (String::from("type"), String::from("text/plain")),
    ];
    let once = URLPart::expand(&parts, &params).unwrap();
    let twice = URLPart::expand(&parts, &params).unwrap();
    assert_eq!(once, twice);
    assert_eq!(once, "https://h/download/A13/G%20abc?type=text/plain");
}

#[test]
fn missing_variable_always_fails() {
    let parts = URLPart::parse("https://h/{accountId}/{blobId}").unwrap();
    let params = vec![(String::from("accountId"), String::from("A13"))];
    match URLPart::expand(&parts, &params) {
        Err(Error::MissingVariable(name)) => assert_eq!(name, "blobId"),
        _ => panic!("expansion must fail on a missing required variable"),
    }
}

#[test]
fn non_ascii_values_are_percent_encoded() {
    let parts = URLPart::parse("{n}").unwrap();
    let params = vec![(String::from("n"), String::from("café+1"))];
    assert_eq!(URLPart::expand(&parts, &params).unwrap(), "caf%C3%A9%2B1");
}

#[test]
fn malformed_templates_are_rejected() {
    assert!(matches!(
        URLPart::parse("https://h/{unclosed"),
        Err(Error::MalformedTemplate)
    ));
    assert!(matches!(URLPart::parse("https://h/{}"), Err(Error::MalformedTemplate)));
    assert!(URLPart::parse("https://h/plain").is_ok());
}

#[test]
fn filters_take_their_wire_tags() {
    assert_eq!(
        Filter::has_keyword(String::from("$seen")).to_json().to_text(),
        r#"{"hasKeyword":"$seen"}"#
    );
    assert_eq!(
        Filter::min_size(1024).to_json().to_text(),
        r#"{"minSize":1024}"#
    );
    assert_eq!(
        Filter::has_attachment(true).to_json().to_text(),
        r#"{"hasAttachment":true}"#
    );
    assert_eq!(
        Filter::in_mailbox_other_than(vec![String::from("m1"), String::from("m2")])
            .to_json()
            .to_text(),
        r#"{"inMailboxOtherThan":["m1","m2"]}"#
    );
}

#[test]
fn date_filters_format_in_utc() {
    assert_eq!(
        Filter::before(0).to_json().to_text(),
        r#"{"before":"1970-01-01T00:00:00Z"}"#
    );
    assert_eq!(
        Filter::after(1_700_000_000).to_json().to_text(),
        r#"{"after":"2023-11-14T22:13:20Z"}"#
    );
}

#[test]
fn comparators_carry_property_and_direction() {
    assert_eq!(
        Comparator::received_at().descending().to_json().to_text(),
        r#"{"property":"receivedAt","isAscending":false}"#
    );
    assert_eq!(
        Comparator::has_keyword(String::from("$flagged")).to_json().to_text(),
        r#"{"property":"hasKeyword","keyword":"$flagged","isAscending":true}"#
    );
    assert_eq!(
        Comparator::size().to_json().to_text(),
        r#"{"property":"size","isAscending":true}"#
    );
}
