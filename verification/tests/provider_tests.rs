use po_translator::catalog::{Catalog, Message};
use po_translator::errors::{ShapeIssue, TranslateError};
use po_translator::mapping::{build_mapping, TranslationMap};
use po_translator::moonshot::parse_response;
use po_translator::provider::{translate_catalog, TranslationProvider};

fn msg(id: &str) -> Message {
    Message {
        msgid: id.to_string(),
        msgstr: String::new(),
        translated: false,
        plural: false,
    }
}

/// A provider that answers from a fixed response body, as the real
/// backend would.
struct CannedProvider {
    body: String,
}

impl TranslationProvider for CannedProvider {
    fn translate(&self, msgids: &Vec<String>, _lang: &str) -> Result<TranslationMap, TranslateError> {
        parse_response(&self.body, msgids)
    }
}

/// A provider that echoes each source text back, upper-cased.
struct UpperProvider;

impl TranslationProvider for UpperProvider {
    fn translate(&self, msgids: &Vec<String>, _lang: &str) -> Result<TranslationMap, TranslateError> {
        let ts: Vec<String> = msgids.iter().map(|s| s.to_uppercase()).collect();
        Ok(build_mapping(msgids, &ts))
    }
}

#[test]
fn full_pass_translates_both_messages() {
    // batch ["Hello", "World"], budget 1000, provider returns
    // {"translations": ["Bonjour", "Monde"]}.
    let mut cat = Catalog { messages: vec![msg("Hello"), msg("World")], lang: "fr".to_string() };
    let provider = CannedProvider {
        body: "{\"choices\":[{\"message\":{\"content\":\
               \"{\\\"translations\\\":[\\\"Bonjour\\\",\\\"Monde\\\"]}\"}}]}"
            .to_string(),
    };
    let outcome = translate_catalog(&mut cat, &provider, 1000).expect("the pass must succeed");
    assert_eq!(outcome.sent, 2);
    assert!(outcome.stopped.is_none());
    assert_eq!(cat.messages[0].msgstr, "Bonjour");
    assert!(cat.messages[0].translated);
    assert_eq!(cat.messages[1].msgstr, "Monde");
    assert!(cat.messages[1].translated);
}

#[test]
fn provider_error_leaves_the_catalog_unchanged() {
    let mut cat = Catalog { messages: vec![msg("Hello")], lang: "fr".to_string() };
    let provider = CannedProvider { body: "{\"choices\":[]}".to_string() };
    let r = translate_catalog(&mut cat, &provider, 1000);
    assert_eq!(r.unwrap_err(), TranslateError::ResponseShape(ShapeIssue::NoChoices));
    assert_eq!(cat.messages[0].msgstr, "");
    assert!(!cat.messages[0].translated);
}

#[test]
fn budget_stop_is_reported_and_tail_stays_open() {
    let mut cat = Catalog {
        messages: vec![msg("sixsix"), msg("second")],
        lang: "fr".to_string(),
    };
    let outcome = translate_catalog(&mut cat, &UpperProvider, 10).expect("the pass must succeed");
    assert_eq!(outcome.sent, 1);
    let stop = outcome.stopped.expect("the budget must stop the scan");
    assert_eq!(stop.index, 1);
    assert_eq!(stop.preview, "second");
    assert_eq!(cat.messages[0].msgstr, "SIXSIX");
    assert!(cat.messages[0].translated);
    assert!(!cat.messages[1].translated);
}

#[test]
fn skipped_messages_are_not_sent_and_not_touched() {
    let mut done = msg("done");
    done.translated = true;
    done.msgstr = "fini".to_string();
    let mut cat = Catalog {
        messages: vec![done, msg("a; b"), msg("ok")],
        lang: "fr".to_string(),
    };
    let outcome = translate_catalog(&mut cat, &UpperProvider, 1000).expect("the pass must succeed");
    assert_eq!(outcome.sent, 1);
    assert_eq!(cat.messages[0].msgstr, "fini");
    assert_eq!(cat.messages[1].msgstr, "");
    assert_eq!(cat.messages[2].msgstr, "OK");
}
