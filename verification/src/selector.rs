use vstd::prelude::*;
use vstd::string::StrSliceExecFns;

use crate::catalog::{Catalog, MessageModel};

verus! {

/// A Unicode white-space character (the `White_Space` property),
/// written out code point by code point.
pub open spec fn is_ws_char(c: char) -> bool {
    let u = c as u32;
    ||| u == 0x09
    ||| u == 0x0A
    ||| u == 0x0B
    ||| u == 0x0C
    ||| u == 0x0D
    ||| u == 0x20
    ||| u == 0x85
    ||| u == 0xA0
    ||| u == 0x1680
    ||| (0x2000 <= u && u <= 0x200A)
    ||| u == 0x2028
    ||| u == 0x2029
    ||| u == 0x202F
    ||| u == 0x205F
    ||| u == 0x3000
}

/// The text is empty or consists of white space only: nothing to translate.
pub open spec fn ws_only(s: Seq<char>) -> bool {
    forall|i: int| 0 <= i < s.len() ==> is_ws_char(#[trigger] s[i])
}

/// The text holds a code-fence marker: three backticks in a row.
pub open spec fn contains_fence(s: Seq<char>) -> bool {
    exists|i: int|
        0 <= i && i + 2 < s.len() && #[trigger] s[i] == '`' && s[i + 1] == '`' && s[i + 2] == '`'
}

/// The text holds a semicolon.
pub open spec fn contains_semi(s: Seq<char>) -> bool {
    exists|i: int| 0 <= i < s.len() && #[trigger] s[i] == ';'
}

/// A source text the selector skips: empty or white space, a code fence,
/// or a semicolon.
pub open spec fn text_skipped(s: Seq<char>) -> bool {
    ws_only(s) || contains_fence(s) || contains_semi(s)
}

/// A message the selector may pick: not yet translated, with a source
/// text that no skip rule rejects.
pub open spec fn candidate(m: MessageModel) -> bool {
    !m.translated && !text_skipped(m.msgid)
}

/// The state of the selector's scan: indices picked so far, their source
/// texts in order, the characters consumed, and the index at which the
/// budget stopped the scan, if it did.
pub ghost struct ScanModel {
    pub picked: Seq<int>,
    pub ids: Seq<Seq<char>>,
    pub used: int,
    pub stop: Option<int>,
}

/// One step of the scan over message `m` at index `idx`.
pub open spec fn scan_step(st: ScanModel, m: MessageModel, idx: int, budget: int) -> ScanModel {
    if !candidate(m) {
        st
    } else if st.used + m.msgid.len() > budget {
        ScanModel { stop: Some(idx), ..st }
    } else {
        ScanModel {
            picked: st.picked.push(idx),
            ids: st.ids.push(m.msgid),
            used: st.used + m.msgid.len(),
            stop: st.stop,
        }
    }
}

/// The scan after the first `n` messages were considered.
pub open spec fn scan(msgs: Seq<MessageModel>, budget: int, n: int) -> ScanModel
    decreases n,
{
    if n <= 0 {
        ScanModel { picked: seq![], ids: seq![], used: 0, stop: None }
    } else {
        let prev = scan(msgs, budget, n - 1);
        if prev.stop is Some {
            prev
        } else {
            scan_step(prev, msgs[n - 1], n - 1, budget)
        }
    }
}

/// The total character count of a batch of source texts.
pub open spec fn total_len(ids: Seq<Seq<char>>) -> int
    decreases ids.len(),
{
    if ids.len() == 0 {
        0
    } else {
        total_len(ids.drop_last()) + ids.last().len()
    }
}

/// Once the scan has stopped, considering further messages changes nothing.
pub proof fn lemma_scan_frozen(msgs: Seq<MessageModel>, budget: int, n1: int, n2: int)
    requires
        0 <= n1 <= n2,
        scan(msgs, budget, n1).stop is Some,
    ensures
        scan(msgs, budget, n2) == scan(msgs, budget, n1),
    decreases n2 - n1,
{
    if n1 < n2 {
        lemma_scan_frozen(msgs, budget, n1, n2 - 1);
    }
}

/// Structural facts about the scan: picked indices are in range, in
/// strictly increasing order, all candidates; the batch lists exactly
/// their source texts; the characters consumed are the batch's total
/// length and stay within the budget; a stop names an index past every
/// picked one.
pub proof fn lemma_scan_basics(msgs: Seq<MessageModel>, budget: int, n: int)
    requires
        0 <= n,
        0 <= budget,
    ensures
        ({
            let m = scan(msgs, budget, n);
            &&& m.picked.len() == m.ids.len()
            &&& 0 <= m.used <= budget
            &&& m.used == total_len(m.ids)
            &&& forall|k: int|
                0 <= k < m.picked.len() ==> 0 <= #[trigger] m.picked[k] < n
            &&& forall|k: int|
                0 <= k < m.picked.len() ==> candidate(msgs[#[trigger] m.picked[k]])
            &&& forall|k: int|
                0 <= k < m.picked.len() ==> #[trigger] m.ids[k] == msgs[m.picked[k]].msgid
            &&& forall|k1: int, k2: int|
                0 <= k1 < k2 < m.picked.len() ==> #[trigger] m.picked[k1] < #[trigger] m.picked[k2]
            &&& (m.stop matches Some(i) ==> 0 <= i < n && over_budget_at(msgs, budget, i)
                && forall|k: int| 0 <= k < m.picked.len() ==> #[trigger] m.picked[k] < i)
        }),
    decreases n,
{
    if n > 0 {
        lemma_scan_basics(msgs, budget, n - 1);
        let prev = scan(msgs, budget, n - 1);
        if prev.stop is None && candidate(msgs[n - 1]) && prev.used + msgs[n - 1].msgid.len()
            <= budget {
            assert(scan(msgs, budget, n).ids == prev.ids.push(msgs[n - 1].msgid));
            assert(prev.ids.push(msgs[n - 1].msgid).drop_last() =~= prev.ids);
        }
    }
}

/// The message at index `i` is a candidate whose character count does not
/// fit what is left of the budget when the scan reaches it.
pub open spec fn over_budget_at(msgs: Seq<MessageModel>, budget: int, i: int) -> bool {
    candidate(msgs[i]) && scan(msgs, budget, i).used + msgs[i].msgid.len() > budget
}

/// Law: a message already marked translated is never in the candidate
/// batch.
pub proof fn lemma_translated_never_selected(msgs: Seq<MessageModel>, budget: int, n: int)
    requires
        0 <= n,
        0 <= budget,
    ensures
        forall|k: int|
            0 <= k < scan(msgs, budget, n).picked.len() ==> !msgs[#[trigger] scan(
                msgs,
                budget,
                n,
            ).picked[k]].translated,
{
    lemma_scan_basics(msgs, budget, n);
}

/// Law: the cumulative character count of the accepted candidates never
/// exceeds the budget; the message that would first exceed it is itself
/// excluded, and every accepted candidate stands before it.  That the
/// scan considers nothing after the stop is `lemma_scan_frozen`.
pub proof fn lemma_budget_respected(msgs: Seq<MessageModel>, budget: int, n: int)
    requires
        0 <= n,
        0 <= budget,
    ensures
        total_len(scan(msgs, budget, n).ids) <= budget,
        (scan(msgs, budget, n).stop matches Some(i) ==> over_budget_at(msgs, budget, i) && forall|
            k: int,
        | 0 <= k < scan(msgs, budget, n).picked.len() ==> #[trigger] scan(msgs, budget, n).picked[k]
            < i),
{
    lemma_scan_basics(msgs, budget, n);
}

/// Law: a source text holding a code-fence marker or a semicolon is never
/// selected, whatever the budget has left.
pub proof fn lemma_marked_text_never_selected(msgs: Seq<MessageModel>, budget: int, n: int)
    requires
        0 <= n,
        0 <= budget,
    ensures
        forall|k: int|
            0 <= k < scan(msgs, budget, n).picked.len() ==> !contains_fence(
                msgs[#[trigger] scan(msgs, budget, n).picked[k]].msgid,
            ) && !contains_semi(msgs[scan(msgs, budget, n).picked[k]].msgid),
{
    lemma_scan_basics(msgs, budget, n);
}

/// The diagnostic preview: the first 20 characters of a text.
pub open spec fn preview_of(s: Seq<char>) -> Seq<char> {
    if s.len() <= 20 {
        s
    } else {
        s.subrange(0, 20)
    }
}

/// The diagnostic emitted when the budget stops the scan: the enumeration
/// position of the message that did not fit, and a short preview of its text.
#[derive(Debug)]
pub struct StopInfo {
    pub index: usize,
    pub preview: String,
}

/// The selector's output: the indices of the picked messages, their source
/// texts in catalog order, and the stop diagnostic if the budget was hit.
pub struct Selection {
    pub indices: Vec<usize>,
    pub msgids: Vec<String>,
    pub stopped: Option<StopInfo>,
}

fn is_ws_exec(c: char) -> (b: bool)
    ensures
        b == is_ws_char(c),
{
    let u = c as u32;
    u == 0x09 || u == 0x0A || u == 0x0B || u == 0x0C || u == 0x0D || u == 0x20 || u == 0x85 || u
        == 0xA0 || u == 0x1680 || (0x2000 <= u && u <= 0x200A) || u == 0x2028 || u == 0x2029 || u
        == 0x202F || u == 0x205F || u == 0x3000
}

fn ws_only_exec(s: &str) -> (b: bool)
    ensures
        b == ws_only(s@),
{
    let n = s.unicode_len();
    let mut i: usize = 0;
    while i < n
        invariant
            i <= n,
            n == s@.len(),
            forall|j: int| 0 <= j < i ==> is_ws_char(#[trigger] s@[j]),
        decreases n - i,
    {
        if !is_ws_exec(s.get_char(i)) {
            assert(!is_ws_char(s@[i as int]));
            return false;
        }
        i += 1;
    }
    true
}

fn contains_fence_exec(s: &str) -> (b: bool)
    ensures
        b == contains_fence(s@),
{
    let n = s.unicode_len();
    if n < 3 {
        return false;
    }
    let mut i: usize = 0;
    while i + 2 < n
        invariant
            i + 2 <= n,
            n == s@.len(),
            forall|j: int|
                0 <= j < i ==> !(#[trigger] s@[j] == '`' && s@[j + 1] == '`' && s@[j + 2] == '`'),
        decreases n - i,
    {
        if s.get_char(i) == '`' && s.get_char(i + 1) == '`' && s.get_char(i + 2) == '`' {
            assert(s@[i as int] == '`' && s@[i as int + 1] == '`' && s@[i as int + 2] == '`');
            return true;
        }
        i += 1;
    }
    false
}

fn contains_semi_exec(s: &str) -> (b: bool)
    ensures
        b == contains_semi(s@),
{
    let n = s.unicode_len();
    let mut i: usize = 0;
    while i < n
        invariant
            i <= n,
            n == s@.len(),
            forall|j: int| 0 <= j < i ==> #[trigger] s@[j] != ';',
        decreases n - i,
    {
        if s.get_char(i) == ';' {
            assert(s@[i as int] == ';');
            return true;
        }
        i += 1;
    }
    false
}

fn text_skipped_exec(s: &str) -> (b: bool)
    ensures
        b == text_skipped(s@),
{
    if ws_only_exec(s) {
        return true;
    }
    if contains_fence_exec(s) {
        return true;
    }
    contains_semi_exec(s)
}

/// Scan the catalog in order, apply the skip rules and the character
/// budget, and return the candidate batch; the result is exactly the
/// scan model over the whole catalog.
pub fn select(catalog: &Catalog, budget: usize) -> (sel: Selection)
    ensures
        ({
            let m = scan(catalog@.messages, budget as int, catalog@.messages.len() as int);
            &&& sel.indices@.len() == m.picked.len()
            &&& forall|k: int|
                0 <= k < m.picked.len() ==> #[trigger] sel.indices@[k] as int == m.picked[k]
            &&& sel.msgids.deep_view() == m.ids
            &&& (m.stop is None <==> sel.stopped is None)
            &&& (m.stop matches Some(i) ==> sel.stopped matches Some(si) && si.index as int == i
                && si.preview@ == preview_of(catalog@.messages[i].msgid))
        }),
{
    let ghost msgs = catalog@.messages;
    let n = catalog.messages.len();
    let mut indices: Vec<usize> = Vec::new();
    let mut msgids: Vec<String> = Vec::new();
    let mut used: usize = 0;
    let mut stopped: Option<StopInfo> = None;
    let mut i: usize = 0;
    while i < n && stopped.is_none()
        invariant
            i <= n,
            n == msgs.len(),
            msgs == catalog@.messages,
            used <= budget,
            ({
                let m = if stopped is None {
                    scan(msgs, budget as int, i as int)
                } else {
                    scan(msgs, budget as int, n as int)
                };
                &&& indices@.len() == m.picked.len()
                &&& forall|k: int|
                    0 <= k < m.picked.len() ==> #[trigger] indices@[k] as int == m.picked[k]
                &&& msgids.deep_view() == m.ids
                &&& used as int == m.used
                &&& (match stopped {
                    None => m.stop is None,
                    Some(si) => m.stop matches Some(ix) && si.index as int == ix && si.preview@
                        == preview_of(msgs[ix].msgid),
                })
            }),
        decreases n - i,
    {
        let msg = &catalog.messages[i];
        assert(msg@ == msgs[i as int]);
        let ghost prev = scan(msgs, budget as int, i as int);
        let skip = msg.translated || text_skipped_exec(msg.msgid.as_str());
        if skip {
            proof {
                assert(scan(msgs, budget as int, i as int + 1) == prev);
            }
            i += 1;
        } else {
            let len = msg.msgid.as_str().unicode_len();
            if len > budget - used {
                let pl: usize = if len > 20 {
                    20
                } else {
                    len
                };
                let prevw = msg.msgid.as_str().substring_char(0, pl);
                stopped = Some(StopInfo { index: i, preview: prevw.to_owned() });
                proof {
                    let next = scan(msgs, budget as int, i as int + 1);
                    assert(next.stop == Some(i as int));
                    lemma_scan_frozen(msgs, budget as int, i as int + 1, n as int);
                    if len <= 20 {
                        assert(msg.msgid@.subrange(0, pl as int) =~= msgs[i as int].msgid);
                    }
                }
                i += 1;
            } else {
                used += len;
                indices.push(i);
                msgids.push(msg.msgid.clone());
                proof {
                    let next = scan(msgs, budget as int, i as int + 1);
                    assert(next.picked == prev.picked.push(i as int));
                    assert(next.ids == prev.ids.push(msgs[i as int].msgid));
                    assert(msgids.deep_view() =~= next.ids);
                }
                i += 1;
            }
        }
    }
    proof {
        if stopped is None {
            assert(i == n);
        }
    }
    Selection { indices, msgids, stopped }
}

} // verus!
