use vstd::prelude::*;

use crate::catalog::{Catalog, Message, MessageModel};
use crate::mapping::{
    lemma_zip_map_at, lemma_zip_map_dom, zip_len, zip_map, TranslationMap,
};

verus! {

/// What one message becomes under a result mapping: an untranslated
/// singular message whose source text has an entry gets that entry as its
/// target text and the translated mark; every other message is unchanged.
pub open spec fn apply_one(m: MessageModel, tm: Map<Seq<char>, Seq<char>>) -> MessageModel {
    if !m.translated && !m.plural && tm.contains_key(m.msgid) {
        MessageModel { msgstr: tm[m.msgid], translated: true, ..m }
    } else {
        m
    }
}

/// Write the result mapping back into the catalog: each message becomes
/// exactly `apply_one` of its old value; order, length and the catalog's
/// language are kept.
pub fn apply_translations(catalog: &mut Catalog, tm: &TranslationMap)
    ensures
        final(catalog)@.lang == old(catalog)@.lang,
        final(catalog)@.messages.len() == old(catalog)@.messages.len(),
        forall|i: int|
            0 <= i < old(catalog)@.messages.len() ==> #[trigger] final(catalog)@.messages[i]
                == apply_one(old(catalog)@.messages[i], tm@),
{
    let ghost orig = catalog@.messages;
    let n = catalog.messages.len();
    let mut out: Vec<Message> = Vec::new();
    let mut i: usize = 0;
    while i < n
        invariant
            i <= n,
            n == catalog.messages.len(),
            orig == catalog@.messages,
            out@.len() == i,
            forall|j: int| 0 <= j < i ==> #[trigger] out@[j]@ == apply_one(orig[j], tm@),
        decreases n - i,
    {
        let m = &catalog.messages[i];
        assert(m@ == orig[i as int]);
        if !m.translated && !m.plural {
            match tm.get(&m.msgid) {
                Some(t) => {
                    out.push(
                        Message {
                            msgid: m.msgid.clone(),
                            msgstr: t,
                            translated: true,
                            plural: m.plural,
                        },
                    );
                },
                None => {
                    out.push(m.duplicate());
                },
            }
        } else {
            out.push(m.duplicate());
        }
        i += 1;
    }
    catalog.messages = out;
}

/// The catalog after is exactly the catalog before with the mapping
/// applied message by message.
pub open spec fn applied(
    before: Seq<MessageModel>,
    after: Seq<MessageModel>,
    tm: Map<Seq<char>, Seq<char>>,
) -> bool {
    after.len() == before.len() && forall|i: int|
        0 <= i < before.len() ==> #[trigger] after[i] == apply_one(before[i], tm)
}

/// Law: a plural message is never mutated by the applier, even when its
/// source text matches a key of the mapping.
pub proof fn lemma_plural_untouched(m: MessageModel, tm: Map<Seq<char>, Seq<char>>)
    requires
        m.plural,
    ensures
        apply_one(m, tm) == m,
{
}

/// Law: a message already marked translated is never mutated by the applier.
pub proof fn lemma_translated_untouched(m: MessageModel, tm: Map<Seq<char>, Seq<char>>)
    requires
        m.translated,
    ensures
        apply_one(m, tm) == m,
{
}

/// Law: when the provider returns exactly one translation per batch entry,
/// in the batch's order, an untranslated singular message whose source
/// text stands at position `j` of the batch ends up translated with the
/// returned entry at `j`.  The batch must hold no repeated source text:
/// with a repeat, the later position's entry wins for both.
pub proof fn lemma_round_trip(m: MessageModel, ids: Seq<Seq<char>>, ts: Seq<Seq<char>>, j: int)
    requires
        ids.len() == ts.len(),
        0 <= j < ids.len(),
        m.msgid == ids[j],
        !m.translated,
        !m.plural,
        forall|j1: int, j2: int|
            0 <= j1 < j2 < ids.len() ==> #[trigger] ids[j1] != #[trigger] ids[j2],
    ensures
        apply_one(m, zip_map(ids, ts)) == (MessageModel { msgstr: ts[j], translated: true, ..m }),
{
    lemma_zip_map_at(ids, ts, zip_len(ids, ts), j);
}

/// Law: when the provider returns fewer translations than the batch holds,
/// a message whose source text stands at a batch position past the
/// returned length is left entirely unchanged.  The batch must hold no
/// repeated source text: a repeat seen within the returned length would
/// translate the later position too.
pub proof fn lemma_short_response_untouched(
    m: MessageModel,
    ids: Seq<Seq<char>>,
    ts: Seq<Seq<char>>,
    j: int,
)
    requires
        ts.len() <= j < ids.len(),
        m.msgid == ids[j],
        forall|j1: int, j2: int|
            0 <= j1 < j2 < ids.len() ==> #[trigger] ids[j1] != #[trigger] ids[j2],
    ensures
        apply_one(m, zip_map(ids, ts)) == m,
{
    lemma_zip_map_dom(ids, ts, zip_len(ids, ts));
    if zip_map(ids, ts).contains_key(m.msgid) {
        let j2 = choose|j2: int| 0 <= j2 < zip_len(ids, ts) && #[trigger] ids[j2] == m.msgid;
        assert(ids[j2] == ids[j]);
        assert(j2 < j);
        assert(false);
    }
}

} // verus!
