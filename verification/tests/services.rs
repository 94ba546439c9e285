use soshalthing_yew::decimal::IntErrorKind;
use soshalthing_yew::error::{Error, ErrorKind};
use soshalthing_yew::services::RateLimit;

fn h(s: &str) -> Option<Vec<u8>> {
    Some(s.as_bytes().to_vec())
}

#[test]
fn rate_limit_defaults() {
    let r = RateLimit::default();
    assert_eq!(r, RateLimit { limit: 1, remaining: 1, reset: 0 });
}

#[test]
fn rate_limit_reads_its_headers() {
    let r = RateLimit::from_headers(h("900"), h("899"), h("1650000000")).unwrap();
    assert_eq!(r, RateLimit { limit: 900, remaining: 899, reset: 1650000000 });
}

#[test]
fn rate_limit_missing_header_is_named() {
    match RateLimit::from_headers(h("900"), None, h("1")) {
        Err(Error::Generic(ErrorKind::Text(m))) => assert_eq!(m, "Couldn't get ratelimit's remaining"),
        other => panic!("unexpected {:?}", other),
    }
    match RateLimit::from_headers(None, None, None) {
        Err(Error::Generic(ErrorKind::Text(m))) => assert_eq!(m, "Couldn't get ratelimit's limit"),
        other => panic!("unexpected {:?}", other),
    }
    match RateLimit::from_headers(h("1"), h("1"), None) {
        Err(Error::Generic(ErrorKind::Text(m))) => assert_eq!(m, "Couldn't get ratelimit's reset"),
        other => panic!("unexpected {:?}", other),
    }
}

#[test]
fn rate_limit_header_that_is_not_text() {
    match RateLimit::from_headers(Some(vec![b'1', 0x80]), h("1"), h("1")) {
        Err(Error::Generic(ErrorKind::ToStr)) => {}
        other => panic!("unexpected {:?}", other),
    }
    match RateLimit::from_headers(Some(vec![b'1', 0x7f]), h("1"), h("1")) {
        Err(Error::Generic(ErrorKind::ToStr)) => {}
        other => panic!("unexpected {:?}", other),
    }
}

#[test]
fn rate_limit_header_that_is_not_a_number() {
    match RateLimit::from_headers(h("12a"), h("1"), h("1")) {
        Err(Error::Generic(ErrorKind::ParseInt(IntErrorKind::InvalidDigit))) => {}
        other => panic!("unexpected {:?}", other),
    }
    match RateLimit::from_headers(h("1"), h("1"), h("")) {
        Err(Error::Generic(ErrorKind::ParseInt(IntErrorKind::Empty))) => {}
        other => panic!("unexpected {:?}", other),
    }
    match RateLimit::from_headers(h("1"), h("99999999999"), h("1")) {
        Err(Error::Generic(ErrorKind::ParseInt(IntErrorKind::PosOverflow))) => {}
        other => panic!("unexpected {:?}", other),
    }
    // A tab is text, but not a digit.
    match RateLimit::from_headers(h("1\t"), h("1"), h("1")) {
        Err(Error::Generic(ErrorKind::ParseInt(IntErrorKind::InvalidDigit))) => {}
        other => panic!("unexpected {:?}", other),
    }
}

#[test]
fn rate_limit_negative_values_read() {
    let r = RateLimit::from_headers(h("-5"), h("+3"), h("0")).unwrap();
    assert_eq!(r, RateLimit { limit: -5, remaining: 3, reset: 0 });
}

#[test]
fn can_refresh_resets_a_past_window() {
    let mut r = RateLimit { limit: 15, remaining: 0, reset: 100 };
    assert!(r.can_refresh(101));
    assert_eq!(r.remaining, 15);
}

#[test]
fn can_refresh_within_the_window() {
    let mut r = RateLimit { limit: 15, remaining: 0, reset: 100 };
    assert!(!r.can_refresh(100));
    assert_eq!(r.remaining, 0);
    let mut r = RateLimit { limit: 15, remaining: 2, reset: 100 };
    assert!(r.can_refresh(50));
    assert_eq!(r.remaining, 2);
}

#[test]
fn can_refresh_twice_at_once_agrees() {
    let mut r = RateLimit { limit: 3, remaining: 0, reset: 10 };
    let a = r.can_refresh(20);
    let after = r;
    let b = r.can_refresh(20);
    assert_eq!(a, b);
    assert_eq!(r, after);
}

#[test]
fn error_kind_of_each_variant() {
    let e = Error::ArticleFetch { err: ErrorKind::ToStr, article_ids: vec!["1".to_string()] };
    assert!(matches!(e.kind(), ErrorKind::ToStr));
    let e = Error::RatelimitedArticleFetch {
        err: ErrorKind::Text("x".to_string()),
        article_ids: vec![],
        ratelimit: RateLimit::default(),
    };
    assert!(matches!(e.kind(), ErrorKind::Text(t) if t == "x"));
    let e = Error::text("boom".to_string());
    assert!(matches!(e.kind(), ErrorKind::Text(t) if t == "boom"));
}
