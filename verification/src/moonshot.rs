use vstd::prelude::*;
use vstd::string::StringExecFns;

use crate::errors::{ShapeIssue, TranslateError};
use crate::escape::{json_quote, quoted};
use crate::json::{
    json_lookup, json_model, json_get, lemma_models, model_of, models_of, parse_json, JsonModel,
    JsonVal,
};
use crate::mapping::{build_mapping, lemma_zip_map_dom, zip_len, zip_map, TranslationMap};

verus! {

/// The fixed instruction sent as the system message: the provider must
/// answer with a `translations` array matching `msgids` in order and
/// count, and keep escape sequences intact.
pub open spec fn system_prompt() -> Seq<char> {
    "\nYou are a professional translator that translates English to specific language.\nContent is from gettext po file, I'll provide msgids and context, you job is to translate it to given language.\n- Keep escape words, such as: `\\\"`, `\\n`, even after json serialize and deserialize, \n\nInput is in JSON format, with following fields:\n- msgids: array of msgids\n- context(optional): context of the msgids\n- lang: language to translate to\n\nOutput is in JSON format, with following fields:\n- translations: array of translations, exactly same order and count of msgids.\n\n其他要求：\n- 最终结果必须保留转义符，例如：`\\\"`, `\\n`等, 避免在 JSON 转换中丢失。\n"@
}

fn system_prompt_text() -> (r: &'static str)
    ensures
        r@ == system_prompt(),
{
    "\nYou are a professional translator that translates English to specific language.\nContent is from gettext po file, I'll provide msgids and context, you job is to translate it to given language.\n- Keep escape words, such as: `\\\"`, `\\n`, even after json serialize and deserialize, \n\nInput is in JSON format, with following fields:\n- msgids: array of msgids\n- context(optional): context of the msgids\n- lang: language to translate to\n\nOutput is in JSON format, with following fields:\n- translations: array of translations, exactly same order and count of msgids.\n\n其他要求：\n- 最终结果必须保留转义符，例如：`\\\"`, `\\n`等, 避免在 JSON 转换中丢失。\n"
}

/// The candidate batch as a JSON array body: the texts as JSON string
/// literals, separated by commas.
pub open spec fn ids_json(ids: Seq<Seq<char>>) -> Seq<char>
    decreases ids.len(),
{
    if ids.len() == 0 {
        Seq::empty()
    } else if ids.len() == 1 {
        quoted(ids[0])
    } else {
        ids_json(ids.drop_last()) + seq![','] + quoted(ids.last())
    }
}

/// The user message's content: a JSON object carrying the candidate batch
/// under `msgids`, order preserved, and the target language under `lang`.
pub open spec fn user_content(ids: Seq<Seq<char>>, lang: Seq<char>) -> Seq<char> {
    "{\"msgids\":["@ + ids_json(ids) + "],\"lang\":"@ + quoted(lang) + "}"@
}

/// The whole request body: the fixed model identifier, the system
/// instruction, the user message whose content is the JSON-encoded batch,
/// and a low sampling temperature.
pub open spec fn request_body(ids: Seq<Seq<char>>, lang: Seq<char>) -> Seq<char> {
    "{\"model\":\"moonshot-v1-8k\",\"messages\":[{\"role\":\"system\",\"content\":"@ + quoted(
        system_prompt(),
    ) + "},{\"role\":\"user\",\"content\":"@ + quoted(user_content(ids, lang))
        + "}],\"temperature\":0.3}"@
}

/// Build the user message's content for a candidate batch.
pub fn build_user_content(msgids: &Vec<String>, lang: &str) -> (r: String)
    ensures
        r@ == user_content(msgids.deep_view(), lang@),
{
    let ghost ids = msgids.deep_view();
    let mut out = String::from_str("{\"msgids\":[");
    let n = msgids.len();
    let mut i: usize = 0;
    while i < n
        invariant
            i <= n,
            n == msgids.len(),
            ids == msgids.deep_view(),
            out@ == "{\"msgids\":["@ + ids_json(ids.take(i as int)),
        decreases n - i,
    {
        if i > 0 {
            out.append(",");
        }
        let q = json_quote(msgids[i].as_str());
        out.append(q.as_str());
        proof {
            reveal_strlit(",");
            assert(ids.take(i as int + 1).drop_last() =~= ids.take(i as int));
            assert(ids.take(i as int + 1).last() == ids[i as int]);
            assert(out@ =~= "{\"msgids\":["@ + ids_json(ids.take(i as int + 1)));
        }
        i += 1;
    }
    out.append("],\"lang\":");
    let ql = json_quote(lang);
    out.append(ql.as_str());
    out.append("}");
    proof {
        assert(ids.take(n as int) =~= ids);
        assert(out@ =~= user_content(ids, lang@));
    }
    out
}

/// Build the whole request body for a candidate batch and target language.
pub fn build_request_body(msgids: &Vec<String>, lang: &str) -> (r: String)
    ensures
        r@ == request_body(msgids.deep_view(), lang@),
{
    let mut out = String::from_str(
        "{\"model\":\"moonshot-v1-8k\",\"messages\":[{\"role\":\"system\",\"content\":",
    );
    let sys = json_quote(system_prompt_text());
    out.append(sys.as_str());
    out.append("},{\"role\":\"user\",\"content\":");
    let uc = build_user_content(msgids, lang);
    let quc = json_quote(uc.as_str());
    out.append(quc.as_str());
    out.append("}],\"temperature\":0.3}");
    proof {
        assert(out@ =~= request_body(msgids.deep_view(), lang@));
    }
    out
}

/// The first choice's message content of a parsed response, or the
/// response-shape issue that names what is missing or mis-shaped: no
/// `choices` array of the documented form, an empty one, or a first
/// choice without a `message.content` string.
pub open spec fn content_of(v: JsonModel) -> Result<Seq<char>, ShapeIssue> {
    match json_lookup(v, "choices"@) {
        Option::None => Result::Err(ShapeIssue::MalformedBody),
        Option::Some(c) => match c {
            JsonModel::Arr(items) => {
                if items.len() == 0 {
                    Result::Err(ShapeIssue::NoChoices)
                } else {
                    match json_lookup(items[0], "message"@) {
                        Option::None => Result::Err(ShapeIssue::MalformedBody),
                        Option::Some(m) => match json_lookup(m, "content"@) {
                            Option::None => Result::Err(ShapeIssue::MalformedBody),
                            Option::Some(cv) => match cv {
                                JsonModel::Text(s) => Result::Ok(s),
                                _ => Result::Err(ShapeIssue::MalformedBody),
                            },
                        },
                    }
                }
            },
            _ => Result::Err(ShapeIssue::MalformedBody),
        },
    }
}

/// One translation entry: a JSON string stands as itself, anything else
/// becomes the empty text.
pub open spec fn text_or_empty(v: JsonModel) -> Seq<char> {
    match v {
        JsonModel::Text(s) => s,
        _ => Seq::empty(),
    }
}

/// The translated texts of a parsed content object: the `translations`
/// array element by element, or the error when the field is absent or
/// not an array.
pub open spec fn translations_of(v: JsonModel) -> Result<Seq<Seq<char>>, ShapeIssue> {
    match json_lookup(v, "translations"@) {
        Option::None => Result::Err(ShapeIssue::TranslationsMissing),
        Option::Some(t) => match t {
            JsonModel::Arr(items) => Result::Ok(
                items.map_values(|it: JsonModel| text_or_empty(it)),
            ),
            _ => Result::Err(ShapeIssue::TranslationsMissing),
        },
    }
}

/// What parsing a response body against a candidate batch yields: each
/// stage's error, or the positional zip of the batch with the returned
/// translations.
pub open spec fn response_outcome(body: Seq<char>, ids: Seq<Seq<char>>) -> Result<
    Map<Seq<char>, Seq<char>>,
    TranslateError,
> {
    match json_model(body) {
        Option::None => Result::Err(TranslateError::ResponseShape(ShapeIssue::MalformedBody)),
        Option::Some(v) => match content_of(v) {
            Result::Err(issue) => Result::Err(TranslateError::ResponseShape(issue)),
            Result::Ok(content) => match json_model(content) {
                Option::None => Result::Err(
                    TranslateError::ResponseShape(ShapeIssue::ContentNotJson),
                ),
                Option::Some(cv) => match translations_of(cv) {
                    Result::Err(issue) => Result::Err(TranslateError::ResponseShape(issue)),
                    Result::Ok(ts) => Result::Ok(zip_map(ids, ts)),
                },
            },
        },
    }
}

/// Extract the first choice's message content from a parsed response:
/// exactly `content_of` of the model.
pub fn extract_content(v: &JsonVal) -> (r: Result<String, ShapeIssue>)
    ensures
        match r {
            Ok(s) => content_of(v@) == Result::<Seq<char>, ShapeIssue>::Ok(s@),
            Err(issue) => content_of(v@) == Result::<Seq<char>, ShapeIssue>::Err(issue),
        },
{
    let choices = match json_get(v, "choices") {
        Option::None => {
            return Err(ShapeIssue::MalformedBody);
        },
        Option::Some(c) => c,
    };
    let items = match choices {
        JsonVal::Arr(items) => items,
        _ => {
            return Err(ShapeIssue::MalformedBody);
        },
    };
    proof {
        lemma_models(items@);
    }
    if items.len() == 0 {
        return Err(ShapeIssue::NoChoices);
    }
    let message = match json_get(&items[0], "message") {
        Option::None => {
            return Err(ShapeIssue::MalformedBody);
        },
        Option::Some(m) => m,
    };
    let content = match json_get(message, "content") {
        Option::None => {
            return Err(ShapeIssue::MalformedBody);
        },
        Option::Some(c) => c,
    };
    match content {
        JsonVal::Text(s) => Ok(s.clone()),
        _ => Err(ShapeIssue::MalformedBody),
    }
}

/// Read the `translations` array out of a parsed content object: exactly
/// `translations_of` of the model, a non-string element becoming the
/// empty text.
pub fn translations_list(v: &JsonVal) -> (r: Result<Vec<String>, ShapeIssue>)
    ensures
        match r {
            Ok(ts) => translations_of(v@) == Result::<Seq<Seq<char>>, ShapeIssue>::Ok(
                ts.deep_view(),
            ),
            Err(issue) => translations_of(v@) == Result::<Seq<Seq<char>>, ShapeIssue>::Err(issue),
        },
{
    let tv = match json_get(v, "translations") {
        Option::None => {
            return Err(ShapeIssue::TranslationsMissing);
        },
        Option::Some(t) => t,
    };
    let items = match tv {
        JsonVal::Arr(items) => items,
        _ => {
            return Err(ShapeIssue::TranslationsMissing);
        },
    };
    proof {
        lemma_models(items@);
    }
    let ghost ms = models_of(items@);
    let n = items.len();
    let mut out: Vec<String> = Vec::new();
    let mut i: usize = 0;
    while i < n
        invariant
            i <= n,
            n == items@.len(),
            ms == models_of(items@),
            ms.len() == n,
            forall|j: int| 0 <= j < n ==> #[trigger] ms[j] == model_of(items@[j]),
            out@.len() == i,
            forall|j: int| 0 <= j < i ==> #[trigger] out@[j]@ == text_or_empty(ms[j]),
        decreases n - i,
    {
        match &items[i] {
            JsonVal::Text(s) => {
                out.push(s.clone());
            },
            _ => {
                out.push(String::new());
            },
        }
        i += 1;
    }
    proof {
        assert(out.deep_view() =~= ms.map_values(|it: JsonModel| text_or_empty(it)));
    }
    Ok(out)
}

/// Parse the provider's response body against the candidate batch.
///
/// The result is exactly `response_outcome`: the first choice's
/// `message.content` string is itself parsed as JSON and its
/// `translations` array is paired with the batch by position, over the
/// shorter of the two lengths, a non-string element becoming the empty
/// text; each malformation yields its named response-shape error.
pub fn parse_response(body: &str, msgids: &Vec<String>) -> (r: Result<
    TranslationMap,
    TranslateError,
>)
    ensures
        ({
            let outcome = response_outcome(body@, msgids.deep_view());
            match r {
                Ok(tm) => outcome matches Ok(m) && tm@ == m,
                Err(e) => outcome == Result::<Map<Seq<char>, Seq<char>>, TranslateError>::Err(e),
            }
        }),
        (r matches Err(e) ==> e matches TranslateError::ResponseShape(_)),
        (r matches Ok(tm) ==> forall|k: Seq<char>|
            tm@.contains_key(k) ==> exists|j: int|
                0 <= j < msgids.deep_view().len() && #[trigger] msgids.deep_view()[j] == k),
{
    let v = match parse_json(body) {
        Option::None => {
            return Err(TranslateError::ResponseShape(ShapeIssue::MalformedBody));
        },
        Option::Some(v) => v,
    };
    let content = match extract_content(&v) {
        Err(issue) => {
            return Err(TranslateError::ResponseShape(issue));
        },
        Ok(c) => c,
    };
    let cv = match parse_json(content.as_str()) {
        Option::None => {
            return Err(TranslateError::ResponseShape(ShapeIssue::ContentNotJson));
        },
        Option::Some(cv) => cv,
    };
    let ts = match translations_list(&cv) {
        Err(issue) => {
            return Err(TranslateError::ResponseShape(issue));
        },
        Ok(ts) => ts,
    };
    let tm = build_mapping(msgids, &ts);
    proof {
        lemma_zip_map_dom(
            msgids.deep_view(),
            ts.deep_view(),
            zip_len(msgids.deep_view(), ts.deep_view()),
        );
    }
    Ok(tm)
}

/// Law: a response that parses but whose `choices` array is empty aborts
/// with the no-choices response-shape error, whatever the batch.
pub proof fn lemma_no_choices_aborts(body: Seq<char>, ids: Seq<Seq<char>>)
    requires
        json_model(body) matches Some(v) && json_lookup(v, "choices"@) == Some(
            JsonModel::Arr(Seq::<JsonModel>::empty()),
        ),
    ensures
        response_outcome(body, ids) == Result::<Map<Seq<char>, Seq<char>>, TranslateError>::Err(
            TranslateError::ResponseShape(ShapeIssue::NoChoices),
        ),
{
}

} // verus!
