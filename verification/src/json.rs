use vstd::prelude::*;

verus! {

broadcast use vstd::std_specs::vec::group_vec_axioms, vstd::seq::group_seq_axioms;

/// A JSON document as the library reads it.  Numbers carry no payload:
/// nothing in the protocol reads one.
pub enum JsonVal {
    Null,
    Bool(bool),
    Num,
    Text(String),
    Arr(Vec<JsonVal>),
    Obj(Vec<(String, JsonVal)>),
}

/// The mathematical model of a JSON document.
pub ghost enum JsonModel {
    Null,
    Bool(bool),
    Num,
    Text(Seq<char>),
    Arr(Seq<JsonModel>),
    Obj(Seq<(Seq<char>, JsonModel)>),
}

/// The model of one JSON value.
pub open spec fn model_of(v: JsonVal) -> JsonModel
    decreases v,
{
    match v {
        JsonVal::Null => JsonModel::Null,
        JsonVal::Bool(b) => JsonModel::Bool(b),
        JsonVal::Num => JsonModel::Num,
        JsonVal::Text(s) => JsonModel::Text(s@),
        JsonVal::Arr(items) => JsonModel::Arr(models_of(items@)),
        JsonVal::Obj(entries) => JsonModel::Obj(entry_models_of(entries@)),
    }
}

/// The models of a sequence of JSON values, in order.
pub open spec fn models_of(items: Seq<JsonVal>) -> Seq<JsonModel>
    decreases items,
{
    if items.len() == 0 {
        Seq::empty()
    } else {
        seq![model_of(items[0])] + models_of(items.drop_first())
    }
}

/// The models of a sequence of object entries, in order.
pub open spec fn entry_models_of(es: Seq<(String, JsonVal)>) -> Seq<(Seq<char>, JsonModel)>
    decreases es,
{
    if es.len() == 0 {
        Seq::empty()
    } else {
        seq![(es[0].0@, model_of(es[0].1))] + entry_models_of(es.drop_first())
    }
}

impl View for JsonVal {
    type V = JsonModel;

    open spec fn view(&self) -> JsonModel {
        model_of(*self)
    }
}

/// `models_of` maps the sequence element by element.
pub proof fn lemma_models(items: Seq<JsonVal>)
    ensures
        models_of(items).len() == items.len(),
        forall|i: int|
            0 <= i < items.len() ==> #[trigger] models_of(items)[i] == model_of(items[i]),
    decreases items.len(),
{
    if items.len() > 0 {
        lemma_models(items.drop_first());
    }
}

/// `entry_models_of` maps the entries element by element.
pub proof fn lemma_entry_models(es: Seq<(String, JsonVal)>)
    ensures
        entry_models_of(es).len() == es.len(),
        forall|i: int|
            0 <= i < es.len() ==> #[trigger] entry_models_of(es)[i] == (
                es[i].0@,
                model_of(es[i].1),
            ),
    decreases es.len(),
{
    if es.len() > 0 {
        lemma_entry_models(es.drop_first());
    }
}

/// The value under `key` among a JSON object's entries: the first entry
/// carrying the key, `None` for a missing key.
pub open spec fn obj_lookup(es: Seq<(Seq<char>, JsonModel)>, key: Seq<char>) -> Option<JsonModel>
    decreases es.len(),
{
    if es.len() == 0 {
        Option::None
    } else if es[0].0 == key {
        Option::Some(es[0].1)
    } else {
        obj_lookup(es.drop_first(), key)
    }
}

/// The value under `key` in a JSON value: an object's entry, `None` for
/// a missing key or any non-object value.
pub open spec fn json_lookup(v: JsonModel, key: Seq<char>) -> Option<JsonModel> {
    match v {
        JsonModel::Obj(es) => obj_lookup(es, key),
        _ => Option::None,
    }
}

/// Entries before position `i` never carry `key`, so the lookup's verdict
/// is settled by the entries from `i` on.
proof fn lemma_obj_lookup_skip(es: Seq<(Seq<char>, JsonModel)>, key: Seq<char>, i: int)
    requires
        0 <= i <= es.len(),
        forall|j: int| 0 <= j < i ==> (#[trigger] es[j]).0 != key,
    ensures
        obj_lookup(es, key) == obj_lookup(es.skip(i), key),
    decreases i,
{
    if i > 0 {
        assert(es[0].0 != key);
        lemma_obj_lookup_skip(es.drop_first(), key, i - 1);
        assert(es.drop_first().skip(i - 1) =~= es.skip(i));
    } else {
        assert(es.skip(0) =~= es);
    }
}

/// Look a key up in a JSON value: exactly `json_lookup` of the model.
pub fn json_get<'a>(v: &'a JsonVal, key: &str) -> (r: Option<&'a JsonVal>)
    ensures
        match r {
            Some(x) => json_lookup(v@, key@) == Some(x@),
            None => json_lookup(v@, key@) is None,
        },
{
    let owned: String = key.to_owned();
    match v {
        JsonVal::Obj(entries) => {
            proof {
                lemma_entry_models(entries@);
            }
            let ghost es = entry_models_of(entries@);
            proof {
                assert(v@ == JsonModel::Obj(es));
            }
            let n = entries.len();
            let mut i: usize = 0;
            while i < n
                invariant
                    i <= n,
                    n == entries@.len(),
                    owned@ == key@,
                    es == entry_models_of(entries@),
                    v@ == JsonModel::Obj(es),
                    es.len() == n,
                    forall|j: int|
                        0 <= j < n ==> #[trigger] es[j] == (entries@[j].0@, model_of(
                            entries@[j].1,
                        )),
                    forall|j: int| 0 <= j < i ==> (#[trigger] es[j]).0 != key@,
                decreases n - i,
            {
                if entries[i].0.eq(&owned) {
                    proof {
                        lemma_obj_lookup_skip(es, key@, i as int);
                        assert(es.skip(i as int)[0] == es[i as int]);
                        assert(es[i as int].0 == key@);
                        assert(obj_lookup(es.skip(i as int), key@) == Some(es[i as int].1));
                    }
                    return Some(&entries[i].1);
                }
                i += 1;
            }
            proof {
                lemma_obj_lookup_skip(es, key@, n as int);
                assert(es.skip(n as int) =~= Seq::<(Seq<char>, JsonModel)>::empty());
            }
            None
        },
        _ => None,
    }
}

#[verifier::external_type_specification]
#[verifier::external_body]
pub struct ExValue(serde_json::Value);

/// What parsing a text as JSON yields, abstracted to the shape the
/// library reads: `None` exactly for invalid JSON.  The parse depends on
/// the text alone, so its result bears this name.
pub uninterp spec fn json_model(s: Seq<char>) -> Option<JsonModel>;

/// Relies on serde_json::Value's variants: each arm moves the matched
/// fields into the library's own JSON type, recursing into arrays and
/// objects; object entries come in the map's own (key-sorted) order.
#[verifier::external_body]
fn value_to_json(v: &serde_json::Value) -> JsonVal {
    match v {
        serde_json::Value::Null => JsonVal::Null,
        serde_json::Value::Bool(b) => JsonVal::Bool(*b),
        serde_json::Value::Number(_) => JsonVal::Num,
        serde_json::Value::String(s) => JsonVal::Text(s.clone()),
        serde_json::Value::Array(a) => JsonVal::Arr(a.iter().map(value_to_json).collect()),
        serde_json::Value::Object(m) => JsonVal::Obj(
            m.iter().map(|(k, x)| (k.clone(), value_to_json(x))).collect(),
        ),
    }
}

/// Relies on serde_json::from_str: it returns `Err` exactly on text that
/// is not valid JSON, and the parsed document depends on the text alone;
/// read through `value_to_json`, it is the named `json_model`.
#[verifier::external_body]
pub(crate) fn parse_json(s: &str) -> (r: Option<JsonVal>)
    ensures
        r is Some <==> json_model(s@) is Some,
        (r matches Some(v) ==> Some(v@) == json_model(s@)),
{
    match serde_json::from_str::<serde_json::Value>(s) {
        Ok(v) => Some(value_to_json(&v)),
        Err(_) => None,
    }
}

} // verus!
