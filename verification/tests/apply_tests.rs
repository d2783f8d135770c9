use po_translator::apply::apply_translations;
use po_translator::catalog::{Catalog, Message};
use po_translator::mapping::build_mapping;

fn msg(id: &str) -> Message {
    Message {
        msgid: id.to_string(),
        msgstr: String::new(),
        translated: false,
        plural: false,
    }
}

fn strings(xs: &[&str]) -> Vec<String> {
    xs.iter().map(|s| s.to_string()).collect()
}

#[test]
fn round_trip_same_length_and_order() {
    // batch ["Hello", "World"], provider answers in order: both messages
    // end up translated with their own entry.
    let mut cat = Catalog { messages: vec![msg("Hello"), msg("World")], lang: "fr".to_string() };
    let m = build_mapping(&strings(&["Hello", "World"]), &strings(&["Bonjour", "Monde"]));
    apply_translations(&mut cat, &m);
    assert_eq!(cat.messages[0].msgstr, "Bonjour");
    assert!(cat.messages[0].translated);
    assert_eq!(cat.messages[1].msgstr, "Monde");
    assert!(cat.messages[1].translated);
}

#[test]
fn short_response_leaves_tail_untranslated() {
    let mut cat = Catalog { messages: vec![msg("Hello"), msg("World")], lang: "fr".to_string() };
    let m = build_mapping(&strings(&["Hello", "World"]), &strings(&["Bonjour"]));
    apply_translations(&mut cat, &m);
    assert_eq!(cat.messages[0].msgstr, "Bonjour");
    assert!(cat.messages[0].translated);
    assert_eq!(cat.messages[1].msgstr, "");
    assert!(!cat.messages[1].translated);
}

#[test]
fn plural_messages_are_never_mutated() {
    let mut pl = msg("Hello");
    pl.plural = true;
    let mut cat = Catalog { messages: vec![pl], lang: "fr".to_string() };
    let m = build_mapping(&strings(&["Hello"]), &strings(&["Bonjour"]));
    apply_translations(&mut cat, &m);
    assert_eq!(cat.messages[0].msgstr, "");
    assert!(!cat.messages[0].translated);
    assert!(cat.messages[0].plural);
}

#[test]
fn translated_messages_are_never_mutated() {
    let mut done = msg("Hello");
    done.translated = true;
    done.msgstr = "Salut".to_string();
    let mut cat = Catalog { messages: vec![done], lang: "fr".to_string() };
    let m = build_mapping(&strings(&["Hello"]), &strings(&["Bonjour"]));
    apply_translations(&mut cat, &m);
    assert_eq!(cat.messages[0].msgstr, "Salut");
}

#[test]
fn absent_keys_leave_messages_unchanged() {
    let mut cat = Catalog { messages: vec![msg("untouched")], lang: "fr".to_string() };
    let m = build_mapping(&strings(&["other"]), &strings(&["autre"]));
    apply_translations(&mut cat, &m);
    assert_eq!(cat.messages[0].msgstr, "");
    assert!(!cat.messages[0].translated);
}
