use h3proxy::headers::{copy_headers, field_is, field_text, push_field, HeaderError};
use http::{HeaderMap, HeaderName, HeaderValue};

fn map(fields: &[(&str, &[u8])]) -> HeaderMap<HeaderValue> {
    let mut m = HeaderMap::new();
    for (name, value) in fields {
        assert!(push_field(&mut m, name, value).is_ok());
    }
    m
}

#[test]
fn a_field_goes_to_the_end_of_its_list() {
    let m = map(&[("Accept", b"a"), ("x", b"1"), ("ACCEPT", b"b")]);
    let values: Vec<&[u8]> = m.get_all("accept").iter().map(|v| v.as_bytes()).collect();
    assert_eq!(values, vec![b"a".as_slice(), b"b".as_slice()]);
    assert_eq!(m.len(), 3);
    assert_eq!(m.keys_len(), 2);
}

#[test]
fn names_that_are_no_names() {
    let mut m = HeaderMap::new();
    assert_eq!(push_field(&mut m, "", b"v"), Err(HeaderError::Name));
    assert_eq!(push_field(&mut m, "a b", b"v"), Err(HeaderError::Name));
    assert_eq!(push_field(&mut m, "caf\u{e9}", b"v"), Err(HeaderError::Name));
    assert_eq!(push_field(&mut m, "a:", b"v"), Err(HeaderError::Name));
    assert_eq!(push_field(&mut m, "\"", b"v"), Err(HeaderError::Name));
    assert!(m.is_empty());
}

#[test]
fn every_token_character_is_taken() {
    let mut m = HeaderMap::new();
    assert!(push_field(&mut m, "!#$%&'*+-.^_`|~09azAZ", b"v").is_ok());
    assert_eq!(m.get("!#$%&'*+-.^_`|~09azaz").unwrap(), "v");
}

#[test]
fn values_that_are_no_values() {
    let mut m = HeaderMap::new();
    assert_eq!(push_field(&mut m, "x", b"a\nb"), Err(HeaderError::Value));
    assert_eq!(push_field(&mut m, "x", &[127]), Err(HeaderError::Value));
    assert_eq!(push_field(&mut m, "x", &[0]), Err(HeaderError::Value));
    assert!(m.is_empty());
    assert!(push_field(&mut m, "x", &[9, 32, 255]).is_ok());
    assert_eq!(m.get("x").unwrap().as_bytes(), &[9, 32, 255]);
}

#[test]
fn a_map_becomes_full() {
    let mut m = HeaderMap::new();
    let mut result = Ok(());
    let mut n = 0;
    while result.is_ok() && n < 40000 {
        result = push_field(&mut m, &format!("x-{}", n), b"v");
        if result.is_ok() {
            n += 1;
        }
    }
    assert_eq!(result, Err(HeaderError::Full));
    assert!(n > 6553);
    assert_eq!(m.len(), n);
}

#[test]
fn text_of_a_field() {
    let m = map(&[("host", b"example.com"), ("host", b"other"), ("bin", &[0xff])]);
    assert_eq!(field_text(&m, "host"), Some("example.com".to_string()));
    assert_eq!(field_text(&m, "bin"), None);
    assert_eq!(field_text(&m, "none"), None);
    assert_eq!(field_text(&m, "Host"), Some("example.com".to_string()));
    assert_eq!(field_text(&m, "a b"), None);
    assert_eq!(field_text(&m, ""), None);
    assert!(field_is(&m, "HOST", "example.com"));
    assert!(field_is(&m, "host", "example.com"));
    assert!(!field_is(&m, "host", "other"));
    assert!(!field_is(&m, "none", ""));
}

#[test]
fn a_copy_without_the_length() {
    let m = map(&[("Content-Length", b"5"), ("a", b"1"), ("a", b"2"), ("b", b"3")]);
    let copy = copy_headers(&m, true).unwrap();
    let values: Vec<&[u8]> = copy.get_all("a").iter().map(|v| v.as_bytes()).collect();
    assert_eq!(values, vec![b"1".as_slice(), b"2".as_slice()]);
    assert_eq!(copy.get("b").unwrap(), "3");
    assert_eq!(copy.get("content-length"), None);
    assert_eq!(copy.len(), 3);
    let all = copy_headers(&m, false).unwrap();
    assert_eq!(all, m);
}

#[test]
fn an_empty_map_is_copied() {
    let m: HeaderMap<HeaderValue> = HeaderMap::new();
    assert!(copy_headers(&m, true).unwrap().is_empty());
}

#[test]
fn a_name_that_cannot_be_made_again_stops_the_copy() {
    let mut m: HeaderMap<HeaderValue> = HeaderMap::new();
    let odd = HeaderName::from_lowercase(b"\"").unwrap();
    m.append(odd, HeaderValue::from_static("v"));
    assert!(matches!(copy_headers(&m, true), Err(HeaderError::Name)));
}

#[test]
fn a_key_that_is_no_name_finds_nothing() {
    let mut m: HeaderMap<HeaderValue> = HeaderMap::new();
    let long = "\"".repeat(80);
    m.append(HeaderName::from_lowercase(b"\"").unwrap(), HeaderValue::from_static("v"));
    m.append(HeaderName::from_lowercase(long.as_bytes()).unwrap(), HeaderValue::from_static("v"));
    assert_eq!(field_text(&m, "\""), None);
    assert_eq!(field_text(&m, &long), None);
    let name = "x".repeat(80);
    assert!(push_field(&mut m, &name, b"w").is_ok());
    assert_eq!(field_text(&m, &"X".repeat(80)), Some("w".to_string()));
}
