use vstd::prelude::*;

use crate::apply::{applied, apply_translations};
use crate::catalog::Catalog;
use crate::errors::TranslateError;
use crate::mapping::TranslationMap;
use crate::selector::{preview_of, scan, select, StopInfo};

verus! {

/// The abstract translation capability: one call translates a whole
/// candidate batch into the target language and returns a mapping from
/// source text to translated text, or fails as one atomic operation.
/// The mapping may omit entries: a missing key means "not translated this
/// run", not an error.
pub trait TranslationProvider {
    fn translate(&self, msgids: &Vec<String>, lang: &str) -> Result<TranslationMap, TranslateError>;
}

/// What a successful run reports: how many messages were sent, and the
/// diagnostic if the budget stopped the scan early.
#[derive(Debug)]
pub struct RunOutcome {
    pub sent: usize,
    pub stopped: Option<StopInfo>,
}

/// One translation pass: select candidates under the budget, call the
/// provider once with the whole batch, and write the returned mapping
/// back into the catalog.
///
/// On an error the catalog is left exactly as it was: the applier never
/// runs with an errored mapping.  On success the catalog is exactly the
/// old catalog with some mapping applied message by message; in
/// particular messages already translated and plural messages are never
/// mutated, and a message that changed became translated with its source
/// text kept.
pub fn translate_catalog<P: TranslationProvider>(
    catalog: &mut Catalog,
    provider: &P,
    budget: usize,
) -> (r: Result<RunOutcome, TranslateError>)
    ensures
        final(catalog)@.lang == old(catalog)@.lang,
        final(catalog)@.messages.len() == old(catalog)@.messages.len(),
        (r matches Err(_) ==> final(catalog)@ == old(catalog)@),
        (r matches Ok(_) ==> exists|tm: Map<Seq<char>, Seq<char>>|
            applied(old(catalog)@.messages, final(catalog)@.messages, tm)),
        forall|i: int|
            0 <= i < old(catalog)@.messages.len() && (old(catalog)@.messages[i].translated || old(
                catalog,
            )@.messages[i].plural) ==> #[trigger] final(catalog)@.messages[i] == old(
                catalog,
            )@.messages[i],
        forall|i: int|
            0 <= i < old(catalog)@.messages.len() && final(catalog)@.messages[i] != old(
                catalog,
            )@.messages[i] ==> (#[trigger] final(catalog)@.messages[i].translated
                && final(catalog)@.messages[i].msgid == old(catalog)@.messages[i].msgid
                && final(catalog)@.messages[i].plural == old(catalog)@.messages[i].plural),
        (r matches Ok(o) ==> ({
            let m = scan(
                old(catalog)@.messages,
                budget as int,
                old(catalog)@.messages.len() as int,
            );
            &&& o.sent == m.picked.len()
            &&& (m.stop is None <==> o.stopped is None)
            &&& (m.stop matches Some(i) ==> o.stopped matches Some(si) && si.index as int == i
                && si.preview@ == preview_of(old(catalog)@.messages[i].msgid))
        })),
{
    let ghost orig = catalog@;
    let sel = select(catalog, budget);
    let tm = match provider.translate(&sel.msgids, catalog.lang.as_str()) {
        Ok(tm) => tm,
        Err(e) => {
            return Err(e);
        },
    };
    let sent = sel.indices.len();
    apply_translations(catalog, &tm);
    proof {
        assert(applied(orig.messages, catalog@.messages, tm@));
    }
    Ok(RunOutcome { sent, stopped: sel.stopped })
}

} // verus!
