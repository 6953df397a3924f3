use warden_secret_operator::text::{
    join_texts, parse_unsigned, same_text, split_text, trim_newline,
};
use warden_secret_operator::text_map::TextMap;

fn trimmed(text: &str) -> String {
    let mut text = text.to_owned();
    trim_newline(&mut text);
    text
}

#[test]
fn trim_newline_takes_one_line_ending() {
    assert_eq!(trimmed("token\n"), "token");
    assert_eq!(trimmed("token\r\n"), "token");
    assert_eq!(trimmed("token\n\n"), "token\n");
    assert_eq!(trimmed("\n"), "");
    assert_eq!(trimmed("\r\n"), "");
}

#[test]
fn trim_newline_leaves_the_rest_alone() {
    assert_eq!(trimmed("token"), "token");
    assert_eq!(trimmed("token\r"), "token\r");
    assert_eq!(trimmed("a\nb"), "a\nb");
    assert_eq!(trimmed("\n\r"), "\n\r");
    assert_eq!(trimmed(""), "");
    assert_eq!(trimmed("å\n"), "å");
}

#[test]
fn split_text_gives_every_piece() {
    assert_eq!(split_text("my-collection/my-secret", '/'), vec!["my-collection", "my-secret"]);
    assert_eq!(split_text("/my-secret", '/'), vec!["", "my-secret"]);
    assert_eq!(split_text("a//b/", '/'), vec!["a", "", "b", ""]);
    assert_eq!(split_text("plain", '/'), vec!["plain"]);
    assert_eq!(split_text("", '/'), vec![""]);
}

#[test]
fn join_texts_puts_the_separator_between() {
    let texts = vec!["config".to_owned(), "server".to_owned(), "url".to_owned()];
    assert_eq!(join_texts(&texts, " "), "config server url");
    assert_eq!(join_texts(&vec!["logout".to_owned()], " "), "logout");
    assert_eq!(join_texts(&vec![], " "), "");
}

#[test]
fn parse_unsigned_follows_the_integer_grammar() {
    assert_eq!(parse_unsigned("0", 255), Some(0));
    assert_eq!(parse_unsigned("255", 255), Some(255));
    assert_eq!(parse_unsigned("256", 255), None);
    assert_eq!(parse_unsigned("007", 255), Some(7));
    assert_eq!(parse_unsigned("+12", 255), Some(12));
    assert_eq!(parse_unsigned("-1", 255), None);
    assert_eq!(parse_unsigned("", 255), None);
    assert_eq!(parse_unsigned("+", 255), None);
    assert_eq!(parse_unsigned("1 ", 255), None);
    assert_eq!(parse_unsigned("18446744073709551615", u64::MAX), Some(u64::MAX));
    assert_eq!(parse_unsigned("18446744073709551616", u64::MAX), None);
    for text in ["0", "9", "+7", "255", "256", "00255", "1000", "x", "1x", "", "+", "++1", "٣"] {
        assert_eq!(parse_unsigned(text, 255), text.parse::<u8>().ok().map(u64::from), "{text}");
    }
}

#[test]
fn same_text_compares_contents() {
    assert!(same_text("Ready", "Ready"));
    assert!(!same_text("Ready", "ready"));
    assert!(!same_text("Ready", "Read"));
    assert!(same_text("", ""));
}

#[test]
fn text_map_keeps_the_last_value_of_a_key() {
    let mut map: TextMap<String> = TextMap::new();
    map.insert("a".to_owned(), "1".to_owned());
    map.insert("b".to_owned(), "2".to_owned());
    map.insert("a".to_owned(), "3".to_owned());
    assert_eq!(map.get("a"), Some(&"3".to_owned()));
    assert_eq!(map.get("b"), Some(&"2".to_owned()));
    assert_eq!(map.get("c"), None);
    let copy = map.copy();
    let mut entries = copy.into_entries();
    entries.sort();
    assert_eq!(
        entries,
        vec![("a".to_owned(), "3".to_owned()), ("b".to_owned(), "2".to_owned())]
    );
}

#[test]
fn text_map_from_entries_keeps_the_later_entry() {
    let map: TextMap<String> = TextMap::from_entries(vec![
        ("k".to_owned(), "old".to_owned()),
        ("k".to_owned(), "new".to_owned()),
    ]);
    assert_eq!(map.into_entries(), vec![("k".to_owned(), "new".to_owned())]);
}
