//! `mailto:` links.
use qsl_desktop::mailto::parse_mailto;
use qsl_desktop::urls::{percent_decode, unescape};

#[test]
fn parses_simple_to_address() {
    let p = parse_mailto("mailto:alice@example.com").unwrap();
    assert_eq!(p.to.as_deref(), Some("alice@example.com"));
    assert_eq!(p.subject, None);
}

#[test]
fn parses_subject_and_body() {
    let p = parse_mailto("mailto:bob@example.com?subject=Hi&body=Hello%20there").unwrap();
    assert_eq!(p.to.as_deref(), Some("bob@example.com"));
    assert_eq!(p.subject.as_deref(), Some("Hi"));
    assert_eq!(p.body.as_deref(), Some("Hello there"));
}

#[test]
fn cc_and_bcc_query_params() {
    let p = parse_mailto("mailto:a@x?cc=b@y&bcc=c@z&subject=test").unwrap();
    assert_eq!(p.to.as_deref(), Some("a@x"));
    assert_eq!(p.cc.as_deref(), Some("b@y"));
    assert_eq!(p.bcc.as_deref(), Some("c@z"));
}

#[test]
fn comma_separated_to_list() {
    let p = parse_mailto("mailto:a@x,b@x").unwrap();
    // url crate passes the path through; consumers re-parse the
    // address list with their existing helper.
    assert_eq!(p.to.as_deref(), Some("a@x,b@x"));
}

#[test]
fn rejects_non_mailto_scheme() {
    assert!(parse_mailto("https://example.com").is_err());
}

#[test]
fn rejects_empty_url() {
    assert!(parse_mailto("mailto:").is_err());
}

#[test]
fn merges_path_to_with_query_to() {
    let p = parse_mailto("mailto:primary@x?to=secondary@x").unwrap();
    assert_eq!(p.to.as_deref(), Some("primary@x, secondary@x"));
}

#[test]
fn the_path_is_percent_decoded() {
    let to = |link: &str| parse_mailto(link).unwrap().to.unwrap();
    assert_eq!(to("mailto:alice%40example.com"), "alice@example.com");
    assert_eq!(to("mailto:a@x%2cb@x?to=c%40x"), "a@x,b@x, c@x");
    assert_eq!(to("mailto:jos%C3%A9@x"), "josé@x");
    assert_eq!(to("mailto:josé@x"), "josé@x");
    assert_eq!(to("mailto:a%4@x"), "a%4@x");
    assert_eq!(to("mailto:a%zz@x"), "a%zz@x");
    assert_eq!(to("mailto:a%ff@x"), "a\u{fffd}@x");
    assert_eq!(to("mailto:a%2540x"), "a%40x");
}

#[test]
fn escapes_are_replaced_by_their_bytes() {
    assert_eq!(unescape(b"%41%6a%6A"), b"Ajj".to_vec());
    assert_eq!(unescape(b"%"), b"%".to_vec());
    assert_eq!(unescape(b"%4"), b"%4".to_vec());
    assert_eq!(unescape(b"%%41"), b"%A".to_vec());
    assert_eq!(percent_decode("100 percent"), "100 percent");
}
