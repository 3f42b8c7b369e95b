//! Texts, numbers and orders.

use flint::headers::{value_text, Headers};
use flint::labels::Labels;
use flint::number::{decimal_text, parse_u64, NumberError};
use flint::order::{sort_distinct, text_at_most};
use flint::session_map::{SessionKey, SessionMap};
use flint::session_store::signed_decimal_text;
use flint::session::SessionContainer;
use flint::text::{
    contains_part, has_prefix, join_texts, split_text, split_text_n, split_text_once,
    strip_prefix, to_ascii_lower, trim, trim_trailing,
};

#[test]
fn numbers_are_written_and_read_in_decimal() {
    for n in [0, 9, 10, 65_535, u64::MAX] {
        assert_eq!(decimal_text(n), n.to_string());
        assert_eq!(parse_u64(&n.to_string()), Ok(n));
    }
    assert_eq!(parse_u64("+7"), Ok(7));
    assert_eq!(parse_u64(""), Err(NumberError::Empty));
    assert_eq!(parse_u64("-1"), Err(NumberError::InvalidDigit));
    assert_eq!(parse_u64("18446744073709551616"), Err(NumberError::TooLarge));
    assert_eq!(
        parse_u64("x").expect_err("digit").message(),
        "x".parse::<u64>().expect_err("digit").to_string()
    );
    assert_eq!(signed_decimal_text(i64::MIN), i64::MIN.to_string());
}

#[test]
fn texts_are_cut_as_the_standard_library_cuts_them() {
    let text = " a=b=c ";
    assert_eq!(trim(text), text.trim());
    assert_eq!(trim("\u{3000}x\u{85}"), "x");
    assert_eq!(split_text("a,,b,", ','), "a,,b,".split(',').collect::<Vec<_>>());
    assert_eq!(split_text_n("a:b:c", ':', 2), ["a", "b:c"]);
    assert_eq!(split_text_once("a=b=c", '='), Some(("a".to_owned(), "b=c".to_owned())));
    assert_eq!(split_text_once("abc", '='), None);
    assert_eq!(trim_trailing("a//", '/'), "a");
    assert_eq!(strip_prefix("abc", "ab").as_deref(), Some("c"));
    assert_eq!(strip_prefix("abc", "b"), None);
    assert!(has_prefix("abc", ""));
    assert!(contains_part("abcd", "bc"));
    assert!(contains_part("", ""));
    assert!(!contains_part("abcd", "db"));
    assert_eq!(join_texts(&vec!["a".to_owned(), "b".to_owned()], ";"), "a;b");
    assert_eq!(to_ascii_lower("ÀBc"), "Àbc");
}

#[test]
fn texts_are_ordered_by_their_bytes() {
    assert!(text_at_most("Z", "a"));
    assert!(text_at_most("a", "ab"));
    assert!(!text_at_most("é", "z"));
    assert_eq!(
        sort_distinct(vec!["b".to_owned(), "a".to_owned(), "b".to_owned()]),
        ["a", "b"]
    );
}

#[test]
fn labels_keep_one_value_for_each_name() {
    let mut labels = Labels::new();
    labels.insert("a".to_owned(), "1".to_owned());
    labels.insert("a".to_owned(), "2".to_owned());
    assert_eq!(labels.get("a").map(String::as_str), Some("2"));
    assert!(labels.holds("a", "2"));
    labels.remove("a");
    assert_eq!(labels.get("a"), None);
    assert!(labels.to_pairs().is_empty());
}

#[test]
fn header_names_ignore_ascii_case_and_values_keep_their_order() {
    let mut headers = Headers::new();
    headers.append("X-One", b"1".to_vec());
    headers.append("x-one", b"2".to_vec());
    assert_eq!(headers.get_all("X-ONE"), [b"1".to_vec(), b"2".to_vec()]);
    assert_eq!(headers.get("x-one"), Some(b"1".to_vec()));
    headers.insert("x-ONE", b"3".to_vec());
    assert_eq!(headers.get_all("x-one"), [b"3".to_vec()]);
    assert_eq!(value_text(&b"a\tb".to_vec()).as_deref(), Some("a\tb"));
    assert_eq!(value_text(&vec![0x80]), None);
}

#[test]
fn sessions_are_told_apart_by_their_whole_key() {
    let key = |qualifier: &str, session: &str| SessionKey {
        runtime_arn: "arn".to_owned(),
        qualifier: qualifier.to_owned(),
        runtime_session_id: session.to_owned(),
    };
    let container = |id: &str| SessionContainer {
        id: id.to_owned(),
        endpoint: String::new(),
        age_nanos: 0,
    };
    let mut map = SessionMap::new();
    map.insert(key("A", "1"), container("first"));
    map.insert(key("B", "1"), container("second"));
    map.insert(key("A", "1"), container("third"));
    assert_eq!(map.len(), 2);
    assert_eq!(map.get(&key("A", "1")).expect("entry").id, "third");
    assert_eq!(map.remove(&key("B", "1")).expect("entry").id, "second");
    assert!(map.get(&key("B", "1")).is_none());
}
