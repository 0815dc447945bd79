use rbw::base64::{encode, encode_url_safe_no_pad};
use rbw::pairs::{byte_value, latest, text_value};
use rbw::text::{
    before, chars_of, decimal_string, replace_all, same_bytes, same_text, starts_with, utf8_text,
};

fn pairs(list: &[(&str, &str)]) -> Vec<(String, String)> {
    list.iter()
        .map(|(name, value)| (name.to_string(), value.to_string()))
        .collect()
}

#[test]
fn base64_vectors() {
    for (plain, code) in [
        ("", ""),
        ("f", "Zg=="),
        ("fo", "Zm8="),
        ("foo", "Zm9v"),
        ("foob", "Zm9vYg=="),
        ("fooba", "Zm9vYmE="),
        ("foobar", "Zm9vYmFy"),
    ] {
        assert_eq!(encode(plain.as_bytes()), code);
        assert_eq!(
            encode_url_safe_no_pad(plain.as_bytes()),
            code.trim_end_matches('=')
        );
    }
}

#[test]
fn base64_alphabets_differ() {
    assert_eq!(encode(&[0xfb, 0xef, 0xff]), "++//");
    assert_eq!(encode_url_safe_no_pad(&[0xfb, 0xef, 0xff]), "--__");
}

#[test]
fn decimal_numbers() {
    assert_eq!(decimal_string(0), "0");
    assert_eq!(decimal_string(8065), "8065");
    assert_eq!(decimal_string(u64::MAX), "18446744073709551615");
}

#[test]
fn text_of_bytes() {
    assert_eq!(utf8_text("h\u{e9}".as_bytes()), Some("h\u{e9}".to_string()));
    assert_eq!(utf8_text(b"\xc3"), None);
}

#[test]
fn characters_of_text() {
    assert_eq!(chars_of("h\u{e9}"), ['h', '\u{e9}']);
}

#[test]
fn comparisons() {
    assert!(starts_with(b"OK then", b"OK"));
    assert!(!starts_with(b"O", b"OK"));
    assert!(same_bytes(b"", b""));
    assert!(!same_bytes(b"ab", b"ac"));
    assert!(same_text("\u{e9}", "\u{e9}"));
    assert!(!same_text("a", "ab"));
}

#[test]
fn text_before_a_pattern() {
    assert_eq!(before("state_identifier=x_identifier=y", "_identifier="), "state");
    assert_eq!(before("state", "_identifier="), "state");
    assert_eq!(before("_identifier=", "_identifier="), "");
}

#[test]
fn replacing_a_pattern() {
    assert_eq!(replace_all("https://a/https://b", "https://", "wss://"), "wss://a/wss://b");
    assert_eq!(replace_all("aaa", "aa", "b"), "ba");
    assert_eq!(replace_all("", "x", "y"), "");
}

#[test]
fn last_value_of_a_name() {
    let list = pairs(&[("a", "1"), ("b", "2"), ("a", "3")]);
    assert_eq!(text_value(&list, "a").as_deref(), Some("3"));
    assert_eq!(text_value(&list, "c"), None);
    let bytes = vec![(b"k".to_vec(), b"v".to_vec()), (b"k".to_vec(), b"w".to_vec())];
    assert_eq!(byte_value(&bytes, b"k"), Some(b"w".to_vec()));
    assert_eq!(byte_value(&bytes, b"x"), None);
}

#[test]
fn replaced_values_are_dropped() {
    let mut list = latest(&pairs(&[("a", "1"), ("b", "2"), ("a", "3")]));
    list.sort();
    assert_eq!(list, pairs(&[("a", "3"), ("b", "2")]));
}
