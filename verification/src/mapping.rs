use vstd::prelude::*;

verus! {

/// The map described by a list of key/value entries, later entries
/// overwriting earlier ones.
pub open spec fn entries_map(es: Seq<(Seq<char>, Seq<char>)>) -> Map<Seq<char>, Seq<char>>
    decreases es.len(),
{
    if es.len() == 0 {
        Map::empty()
    } else {
        entries_map(es.drop_last()).insert(es.last().0, es.last().1)
    }
}

/// The result mapping built by pairing a batch of source texts with the
/// returned translations position by position, over the shorter of the
/// two lengths, the last pair winning for a repeated source text.
pub open spec fn zip_map_upto(ids: Seq<Seq<char>>, ts: Seq<Seq<char>>, n: int) -> Map<
    Seq<char>,
    Seq<char>,
>
    decreases n,
{
    if n <= 0 {
        Map::empty()
    } else {
        zip_map_upto(ids, ts, n - 1).insert(ids[n - 1], ts[n - 1])
    }
}

/// The shorter of the two lengths.
pub open spec fn zip_len(ids: Seq<Seq<char>>, ts: Seq<Seq<char>>) -> int {
    if ids.len() <= ts.len() {
        ids.len() as int
    } else {
        ts.len() as int
    }
}

/// The full positional pairing of a batch with the returned translations.
pub open spec fn zip_map(ids: Seq<Seq<char>>, ts: Seq<Seq<char>>) -> Map<Seq<char>, Seq<char>> {
    zip_map_upto(ids, ts, zip_len(ids, ts))
}

/// A key of the pairing is exactly a source text at some paired position.
pub proof fn lemma_zip_map_dom(ids: Seq<Seq<char>>, ts: Seq<Seq<char>>, n: int)
    requires
        0 <= n <= zip_len(ids, ts),
    ensures
        forall|k: Seq<char>|
            zip_map_upto(ids, ts, n).contains_key(k) <==> exists|j: int|
                0 <= j < n && #[trigger] ids[j] == k,
    decreases n,
{
    if n > 0 {
        lemma_zip_map_dom(ids, ts, n - 1);
        assert forall|k: Seq<char>| zip_map_upto(ids, ts, n).contains_key(k) implies exists|j: int|
            0 <= j < n && #[trigger] ids[j] == k by {
            if k == ids[n - 1] {
                assert(ids[n - 1] == k);
            } else {
                assert(zip_map_upto(ids, ts, n - 1).contains_key(k));
            }
        }
        assert forall|k: Seq<char>| (exists|j: int| 0 <= j < n && #[trigger] ids[j] == k) implies
            zip_map_upto(ids, ts, n).contains_key(k) by {
            let j = choose|j: int| 0 <= j < n && #[trigger] ids[j] == k;
            if j < n - 1 {
                assert(exists|j2: int| 0 <= j2 < n - 1 && #[trigger] ids[j2] == k);
                assert(zip_map_upto(ids, ts, n - 1).contains_key(k));
            }
        }
    }
}

/// When the batch has no repeated source text, each paired position maps
/// to its own translation.
pub proof fn lemma_zip_map_at(ids: Seq<Seq<char>>, ts: Seq<Seq<char>>, n: int, j: int)
    requires
        0 <= j < n <= zip_len(ids, ts),
        forall|j1: int, j2: int|
            0 <= j1 < j2 < ids.len() ==> #[trigger] ids[j1] != #[trigger] ids[j2],
    ensures
        zip_map_upto(ids, ts, n).contains_key(ids[j]),
        zip_map_upto(ids, ts, n)[ids[j]] == ts[j],
    decreases n,
{
    if j == n - 1 {
    } else {
        lemma_zip_map_at(ids, ts, n - 1, j);
        assert(ids[j] != ids[n - 1]);
    }
}

/// The executable result mapping: source text to translated text.
#[derive(Debug)]
pub struct TranslationMap {
    entries: Vec<(String, String)>,
}

impl View for TranslationMap {
    type V = Map<Seq<char>, Seq<char>>;

    closed spec fn view(&self) -> Map<Seq<char>, Seq<char>> {
        entries_map(self.entries.deep_view())
    }
}

/// Entries past position `i` never mention `key`, so the map's verdict on
/// `key` is already settled by the first `i` entries.
proof fn lemma_entries_map_skip(es: Seq<(Seq<char>, Seq<char>)>, key: Seq<char>, i: int)
    requires
        0 <= i <= es.len(),
        forall|j: int| i <= j < es.len() ==> (#[trigger] es[j]).0 != key,
    ensures
        entries_map(es).contains_key(key) <==> entries_map(es.take(i)).contains_key(key),
        entries_map(es).contains_key(key) ==> entries_map(es)[key] == entries_map(es.take(i))[key],
    decreases es.len() - i,
{
    if i < es.len() {
        assert(es.drop_last().take(i) =~= es.take(i));
        assert(es.last() == es[es.len() - 1]);
        lemma_entries_map_skip(es.drop_last(), key, i);
    } else {
        assert(es.take(i) =~= es);
    }
}

impl TranslationMap {
    /// An empty mapping.
    pub fn empty() -> (r: TranslationMap)
        ensures
            r@ == Map::<Seq<char>, Seq<char>>::empty(),
    {
        TranslationMap { entries: Vec::new() }
    }

    /// Record that `key` translates to `value`, overwriting an earlier entry.
    pub fn insert(&mut self, key: String, value: String)
        ensures
            final(self)@ == old(self)@.insert(key@, value@),
    {
        let ghost es = self.entries.deep_view();
        self.entries.push((key, value));
        proof {
            assert(self.entries.deep_view().drop_last() =~= es);
        }
    }

    /// The translated text recorded for `key`, if any.
    pub fn get(&self, key: &String) -> (r: Option<String>)
        ensures
            match r {
                Some(v) => self@.contains_key(key@) && v@ == self@[key@],
                None => !self@.contains_key(key@),
            },
    {
        let n = self.entries.len();
        let mut i: usize = n;
        while i > 0
            invariant
                i <= n,
                n == self.entries.len(),
                forall|j: int|
                    i <= j < n ==> (#[trigger] self.entries.deep_view()[j]).0 != key@,
            decreases i,
        {
            i = i - 1;
            if self.entries[i].0.eq(key) {
                let r = self.entries[i].1.clone();
                proof {
                    let es = self.entries.deep_view();
                    lemma_entries_map_skip(es, key@, i + 1);
                    assert(es.take(i + 1).drop_last() =~= es.take(i as int));
                    lemma_entries_map_skip(es.take(i as int), key@, i as int);
                    assert(es.take(i as int).take(i as int) =~= es.take(i as int));
                }
                return Some(r);
            }
        }
        proof {
            lemma_entries_map_skip(self.entries.deep_view(), key@, 0);
            assert(self.entries.deep_view().take(0) =~= Seq::<(Seq<char>, Seq<char>)>::empty());
        }
        None
    }
}

/// Pair the batch against the returned translations position by position
/// and build the result mapping; exactly the positional zip over the
/// shorter length, the last pair winning for a repeated source text.
pub fn build_mapping(msgids: &Vec<String>, translations: &Vec<String>) -> (m: TranslationMap)
    ensures
        m@ == zip_map(msgids.deep_view(), translations.deep_view()),
{
    let ghost ids = msgids.deep_view();
    let ghost ts = translations.deep_view();
    let n = if msgids.len() <= translations.len() {
        msgids.len()
    } else {
        translations.len()
    };
    let mut m = TranslationMap::empty();
    let mut i: usize = 0;
    while i < n
        invariant
            i <= n,
            n as int == zip_len(ids, ts),
            ids == msgids.deep_view(),
            ts == translations.deep_view(),
            n <= msgids.len(),
            n <= translations.len(),
            m@ == zip_map_upto(ids, ts, i as int),
        decreases n - i,
    {
        m.insert(msgids[i].clone(), translations[i].clone());
        i += 1;
    }
    m
}

} // verus!
