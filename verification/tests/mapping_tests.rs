use po_translator::mapping::{build_mapping, TranslationMap};

fn strings(xs: &[&str]) -> Vec<String> {
    xs.iter().map(|s| s.to_string()).collect()
}

#[test]
fn pairs_by_position() {
    let m = build_mapping(&strings(&["Hello", "World"]), &strings(&["Bonjour", "Monde"]));
    assert_eq!(m.get(&"Hello".to_string()), Some("Bonjour".to_string()));
    assert_eq!(m.get(&"World".to_string()), Some("Monde".to_string()));
    assert_eq!(m.get(&"absent".to_string()), None);
}

#[test]
fn shorter_response_leaves_tail_unmapped() {
    let m = build_mapping(&strings(&["a", "b", "c"]), &strings(&["x"]));
    assert_eq!(m.get(&"a".to_string()), Some("x".to_string()));
    assert_eq!(m.get(&"b".to_string()), None);
    assert_eq!(m.get(&"c".to_string()), None);
}

#[test]
fn longer_response_discards_extra_entries() {
    let m = build_mapping(&strings(&["a"]), &strings(&["x", "y", "z"]));
    assert_eq!(m.get(&"a".to_string()), Some("x".to_string()));
}

#[test]
fn duplicate_source_text_last_pair_wins() {
    let m = build_mapping(&strings(&["A", "A"]), &strings(&["x", "y"]));
    assert_eq!(m.get(&"A".to_string()), Some("y".to_string()));
}

#[test]
fn empty_mapping_has_no_keys() {
    let m = TranslationMap::empty();
    assert_eq!(m.get(&"anything".to_string()), None);
}

#[test]
fn insert_overwrites() {
    let mut m = TranslationMap::empty();
    m.insert("k".to_string(), "v1".to_string());
    m.insert("k".to_string(), "v2".to_string());
    assert_eq!(m.get(&"k".to_string()), Some("v2".to_string()));
}
