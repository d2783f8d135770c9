use po_translator::errors::{ShapeIssue, TranslateError};
use po_translator::escape::{json_escape, json_quote};
use po_translator::moonshot::{build_request_body, build_user_content, parse_response};

fn strings(xs: &[&str]) -> Vec<String> {
    xs.iter().map(|s| s.to_string()).collect()
}

#[test]
fn escape_keeps_plain_text() {
    assert_eq!(json_escape("Hello, World"), "Hello, World");
}

#[test]
fn escape_quotes_backslashes_and_controls() {
    assert_eq!(json_escape("he said \"hi\"\n"), "he said \\\"hi\\\"\\n");
    assert_eq!(json_escape("a\\b"), "a\\\\b");
    assert_eq!(json_escape("tab\there"), "tab\\there");
    assert_eq!(json_escape("\u{1}\u{1f}"), "\\u0001\\u001f");
}

#[test]
fn quote_wraps_in_quotes() {
    assert_eq!(json_quote("ab"), "\"ab\"");
}

#[test]
fn user_content_is_the_documented_json() {
    let c = build_user_content(&strings(&["Hello", "World"]), "fr");
    assert_eq!(c, "{\"msgids\":[\"Hello\",\"World\"],\"lang\":\"fr\"}");
}

#[test]
fn user_content_of_empty_batch() {
    let c = build_user_content(&strings(&[]), "de");
    assert_eq!(c, "{\"msgids\":[],\"lang\":\"de\"}");
}

#[test]
fn request_body_parses_as_the_documented_shape() {
    // Decode the built body with a real JSON parser and check every
    // documented field, the batch order included.
    let body = build_request_body(&strings(&["He said \"no\"", "World"]), "zh");
    let v: serde_json::Value = serde_json::from_str(&body).expect("the body must be valid JSON");
    assert_eq!(v.get("model").unwrap().as_str().unwrap(), "moonshot-v1-8k");
    assert_eq!(v.get("temperature").unwrap().as_f64().unwrap(), 0.3);
    let messages = v.get("messages").unwrap().as_array().unwrap();
    assert_eq!(messages.len(), 2);
    assert_eq!(messages[0].get("role").unwrap().as_str().unwrap(), "system");
    assert!(messages[0]
        .get("content")
        .unwrap()
        .as_str()
        .unwrap()
        .contains("professional translator"));
    assert_eq!(messages[1].get("role").unwrap().as_str().unwrap(), "user");
    let content = messages[1].get("content").unwrap().as_str().unwrap();
    let inner: serde_json::Value =
        serde_json::from_str(content).expect("the user content must be valid JSON");
    let ids = inner.get("msgids").unwrap().as_array().unwrap();
    assert_eq!(ids[0].as_str().unwrap(), "He said \"no\"");
    assert_eq!(ids[1].as_str().unwrap(), "World");
    assert_eq!(inner.get("lang").unwrap().as_str().unwrap(), "zh");
}

fn body_with_content(content: &str) -> String {
    let mut b = String::from("{\"choices\":[{\"message\":{\"content\":");
    b.push_str(&json_quote(content));
    b.push_str("}}]}");
    b
}

#[test]
fn good_response_maps_batch_to_translations() {
    let body = body_with_content("{\"translations\":[\"Bonjour\",\"Monde\"]}");
    let batch = strings(&["Hello", "World"]);
    let m = parse_response(&body, &batch).expect("a well-shaped response must parse");
    assert_eq!(m.get(&"Hello".to_string()), Some("Bonjour".to_string()));
    assert_eq!(m.get(&"World".to_string()), Some("Monde".to_string()));
}

#[test]
fn shorter_translations_array_omits_tail_keys() {
    let body = body_with_content("{\"translations\":[\"Bonjour\"]}");
    let batch = strings(&["Hello", "World"]);
    let m = parse_response(&body, &batch).expect("a well-shaped response must parse");
    assert_eq!(m.get(&"Hello".to_string()), Some("Bonjour".to_string()));
    assert_eq!(m.get(&"World".to_string()), None);
}

#[test]
fn non_string_translation_becomes_empty_text() {
    let body = body_with_content("{\"translations\":[\"Bonjour\",5]}");
    let batch = strings(&["Hello", "World"]);
    let m = parse_response(&body, &batch).expect("a well-shaped response must parse");
    assert_eq!(m.get(&"World".to_string()), Some("".to_string()));
}

#[test]
fn no_choices_is_a_response_shape_error() {
    let batch = strings(&["Hello"]);
    let r = parse_response("{\"choices\":[]}", &batch);
    assert_eq!(r.unwrap_err(), TranslateError::ResponseShape(ShapeIssue::NoChoices));
}

#[test]
fn unparsable_body_is_a_response_shape_error() {
    let batch = strings(&["Hello"]);
    let r = parse_response("not json at all", &batch);
    assert_eq!(r.unwrap_err(), TranslateError::ResponseShape(ShapeIssue::MalformedBody));
}

#[test]
fn missing_choices_field_is_a_response_shape_error() {
    let batch = strings(&["Hello"]);
    let r = parse_response("{\"other\":1}", &batch);
    assert_eq!(r.unwrap_err(), TranslateError::ResponseShape(ShapeIssue::MalformedBody));
}

#[test]
fn non_array_choices_is_a_response_shape_error() {
    let batch = strings(&["Hello"]);
    let r = parse_response("{\"choices\":3}", &batch);
    assert_eq!(r.unwrap_err(), TranslateError::ResponseShape(ShapeIssue::MalformedBody));
}

#[test]
fn unparsable_content_is_a_response_shape_error() {
    let body = body_with_content("not a json object");
    let batch = strings(&["Hello"]);
    let r = parse_response(&body, &batch);
    assert_eq!(r.unwrap_err(), TranslateError::ResponseShape(ShapeIssue::ContentNotJson));
}

#[test]
fn missing_translations_is_a_response_shape_error() {
    let body = body_with_content("{\"other\":[]}");
    let batch = strings(&["Hello"]);
    let r = parse_response(&body, &batch);
    assert_eq!(r.unwrap_err(), TranslateError::ResponseShape(ShapeIssue::TranslationsMissing));
}

#[test]
fn non_array_translations_is_a_response_shape_error() {
    let body = body_with_content("{\"translations\":\"x\"}");
    let batch = strings(&["Hello"]);
    let r = parse_response(&body, &batch);
    assert_eq!(r.unwrap_err(), TranslateError::ResponseShape(ShapeIssue::TranslationsMissing));
}

#[test]
fn translations_survive_escape_round_trip() {
    // A translation holding quotes and newlines passes unharmed through
    // the JSON encode/decode round trip.
    let body = body_with_content("{\"translations\":[\"dit \\\"oui\\\"\\nmerci\"]}");
    let batch = strings(&["said \"yes\"\nthanks"]);
    let m = parse_response(&body, &batch).expect("a well-shaped response must parse");
    assert_eq!(
        m.get(&"said \"yes\"\nthanks".to_string()),
        Some("dit \"oui\"\nmerci".to_string())
    );
}

#[test]
fn only_the_first_choice_is_read() {
    let mut b = String::from("{\"choices\":[{\"message\":{\"content\":");
    b.push_str(&json_quote("{\"translations\":[\"Bonjour\"]}"));
    b.push_str("}},{\"message\":17}]}");
    let batch = strings(&["Hello"]);
    let m = parse_response(&b, &batch).expect("the first choice is well-shaped");
    assert_eq!(m.get(&"Hello".to_string()), Some("Bonjour".to_string()));
}

#[test]
fn missing_message_in_first_choice_is_malformed() {
    let r = parse_response("{\"choices\":[{\"other\":1}]}", &strings(&["Hello"]));
    assert_eq!(r.unwrap_err(), TranslateError::ResponseShape(ShapeIssue::MalformedBody));
}

#[test]
fn non_string_content_is_malformed() {
    let r = parse_response(
        "{\"choices\":[{\"message\":{\"content\":42}}]}",
        &strings(&["Hello"]),
    );
    assert_eq!(r.unwrap_err(), TranslateError::ResponseShape(ShapeIssue::MalformedBody));
}

#[test]
fn null_translation_becomes_empty_text() {
    let body = body_with_content("{\"translations\":[null]}");
    let m = parse_response(&body, &strings(&["Hello"])).expect("a well-shaped response must parse");
    assert_eq!(m.get(&"Hello".to_string()), Some("".to_string()));
}
