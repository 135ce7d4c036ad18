use h3proxy::text::{
    chars_of, append_text, cut, decimal_text, first_index, has_text, same_text, same_text_ignoring_case,
    split_text, to_lower,
};

#[test]
fn cut_splits_at_the_first_delimiter_only() {
    assert_eq!(cut("a:b:c", ':'), ("a".to_string(), Some("b:c".to_string())));
    assert_eq!(cut("abc", ':'), ("abc".to_string(), None));
    assert_eq!(cut("abc:", ':'), ("abc".to_string(), Some("".to_string())));
    assert_eq!(cut("", ':'), ("".to_string(), None));
}

#[test]
fn split_gives_every_piece() {
    assert_eq!(split_text("/a//b/", '/'), vec!["", "a", "", "b", ""]);
    assert_eq!(split_text("", '/'), vec![""]);
    assert_eq!(split_text("abc", '/'), vec!["abc"]);
}

#[test]
fn pieces_joined_again_are_the_text() {
    let text = "/.well-known/masque/udp/192.168.1.1/53/";
    assert_eq!(split_text(text, '/').join("/"), text);
}

#[test]
fn a_text_is_found_anywhere() {
    assert!(has_text("abcd", "bc"));
    assert!(has_text("abcd", "abcd"));
    assert!(has_text("abcd", "d"));
    assert!(has_text("abcd", ""));
    assert!(has_text("", ""));
    assert!(!has_text("abcd", "bd"));
    assert!(!has_text("ab", "abc"));
    assert!(has_text("aab", "ab"));
}

#[test]
fn case_matters_unless_it_is_ignored() {
    assert!(!same_text("Content-Length", "content-length"));
    assert!(same_text("content-length", "content-length"));
    assert!(same_text_ignoring_case("Content-LENGTH", "content-length"));
    assert!(!same_text_ignoring_case("content-lengths", "content-length"));
    assert!(!same_text_ignoring_case("\u{c4}", "\u{e4}"));
    assert_eq!(to_lower('Z'), 'z');
    assert_eq!(to_lower('['), '[');
}

#[test]
fn numbers_in_decimal() {
    assert_eq!(decimal_text(0), "0");
    assert_eq!(decimal_text(443), "443");
    assert_eq!(decimal_text(65535), "65535");
    assert_eq!(decimal_text(u64::MAX), "18446744073709551615");
}

#[test]
fn characters_and_their_places() {
    let s = chars_of("a\u{e9}:");
    assert_eq!(s, vec!['a', '\u{e9}', ':']);
    assert_eq!(first_index(&s, ':'), Some(2));
    assert_eq!(first_index(&s, 'x'), None);
    assert_eq!(append_text("a", "b"), "ab");
}
