use ocpi_kit::transport::patch::JsonValue;
use ocpi_kit::types::{DisplayText, Extensions};

fn number(text: &str) -> JsonValue {
    JsonValue::Number(text.to_owned())
}

fn is_number(v: Option<&JsonValue>, text: &str) -> bool {
    matches!(v, Some(JsonValue::Number(n)) if n == text)
}

#[test]
fn constructor_enforces_the_language_code_length() {
    assert!(DisplayText::new("en", "hello").is_ok());
    assert!(DisplayText::new("english", "hello").is_err());
}

#[test]
fn a_display_text_keeps_its_language_and_text() {
    let d = DisplayText::new("nl", "2 euro per uur").unwrap();
    assert_eq!(d.language.as_str(), "nl");
    assert_eq!(d.text.as_str(), "2 euro per uur");
    assert!(d.extensions.is_empty());
    assert!(DisplayText::new("en", "a\u{7}bell").is_err(), "no control characters");
    assert!(DisplayText::new("en", &"x".repeat(513)).is_err(), "at most 512 characters");
}

#[test]
fn empty_extensions_are_empty() {
    let ext = Extensions::new();
    assert!(ext.is_empty());
    assert_eq!(ext.len(), 0);
    assert!(ext.get_raw("anything").is_none());
}

#[test]
fn a_stored_field_reads_back_and_replaces_what_was_there() {
    let mut ext = Extensions::new();
    assert!(ext.insert_value("nltnm_rank".to_owned(), number("7")).is_none());
    assert!(is_number(ext.get_raw("nltnm_rank"), "7"));
    assert!(ext.contains_key("nltnm_rank"));
    let previous = ext.insert_value("nltnm_rank".to_owned(), number("8"));
    assert!(matches!(previous, Some(JsonValue::Number(n)) if n == "7"));
    assert!(is_number(ext.get_raw("nltnm_rank"), "8"));
    assert_eq!(ext.len(), 1);
}

#[test]
fn fields_are_kept_in_the_order_of_their_names() {
    let mut ext = Extensions::new();
    for name in ["nltnm_source", "acme_note", "Zulu", "nltnm_accuracy_m", "é"] {
        ext.insert_value(name.to_owned(), JsonValue::Null);
    }
    assert_eq!(ext.keys(), vec!["Zulu", "acme_note", "nltnm_accuracy_m", "nltnm_source", "é"]);
    let pairs: Vec<&str> = ext.iter().into_iter().map(|(k, _)| k.as_str()).collect();
    assert_eq!(pairs, ext.keys());
}

#[test]
fn a_removed_field_is_gone() {
    let mut ext = Extensions::new();
    ext.insert_value("a".to_owned(), number("1"));
    ext.insert_value("b".to_owned(), JsonValue::Bool(true));
    assert!(is_number(ext.remove("a").as_ref(), "1"));
    assert!(ext.remove("a").is_none());
    assert!(!ext.contains_key("a"));
    assert_eq!(ext.keys(), vec!["b"]);
}
