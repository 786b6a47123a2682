//! Session mapping: external session id (from the request header) to the
//! cursor-agent session id to resume, kept as a least-recently-used cache
//! of bounded capacity. Persisted as a JSON array of `[external, cursor]`
//! pairs, least recent first, so that a reload keeps the recency order.

use vstd::prelude::*;

use crate::json::{json_parse, parse_json, Json};
use crate::text::str_eq;

verus! {

/// A cache entry as text: (external id, cursor session id).
pub type EntryView = (Seq<char>, Seq<char>);

/// The cursor id stored for `k`, looking from the most recent entry back.
pub open spec fn find(es: Seq<EntryView>, k: Seq<char>) -> Option<Seq<char>>
    decreases es.len(),
{
    if es.len() == 0 {
        None
    } else if es.last().0 == k {
        Some(es.last().1)
    } else {
        find(es.drop_last(), k)
    }
}

/// The entries other than the one for `k`, in order.
pub open spec fn without(es: Seq<EntryView>, k: Seq<char>) -> Seq<EntryView>
    decreases es.len(),
{
    if es.len() == 0 {
        es
    } else if es.last().0 == k {
        without(es.drop_last(), k)
    } else {
        without(es.drop_last(), k).push(es.last())
    }
}

/// No external id occurs twice.
pub open spec fn unique_keys(es: Seq<EntryView>) -> bool {
    forall|i: int, j: int| 0 <= i < j < es.len() ==> es[i].0 != es[j].0
}

/// The entries after storing `k -> v`: any old entry for `k` goes, the new
/// one becomes the most recent, and the least recent entry is dropped when
/// that makes one entry too many.
pub open spec fn with_entry(es: Seq<EntryView>, k: Seq<char>, v: Seq<char>, cap: nat) -> Seq<EntryView> {
    let s = without(es, k).push((k, v));
    if s.len() > cap {
        s.drop_first()
    } else {
        s
    }
}

/// The entries after reading `k`: a found entry becomes the most recent.
pub open spec fn touched(es: Seq<EntryView>, k: Seq<char>) -> Seq<EntryView> {
    match find(es, k) {
        Some(v) => without(es, k).push((k, v)),
        None => es,
    }
}

/// The text of a stored pair.
pub open spec fn entry_view(e: (String, String)) -> EntryView {
    (e.0@, e.1@)
}

/// The text of stored pairs.
pub open spec fn entries_view(v: Seq<(String, String)>) -> Seq<EntryView> {
    v.map_values(|e: (String, String)| entry_view(e))
}

proof fn lemma_find_without_same(es: Seq<EntryView>, k: Seq<char>)
    ensures
        find(without(es, k), k) is None,
    decreases es.len(),
{
    if es.len() > 0 {
        lemma_find_without_same(es.drop_last(), k);
        if es.last().0 != k {
            lemma_find_push(without(es.drop_last(), k), es.last().0, es.last().1, k);
        }
    }
}

proof fn lemma_find_without_other(es: Seq<EntryView>, k: Seq<char>, k2: Seq<char>)
    requires
        k != k2,
    ensures
        find(without(es, k), k2) == find(es, k2),
    decreases es.len(),
{
    if es.len() > 0 {
        lemma_find_without_other(es.drop_last(), k, k2);
        if es.last().0 != k {
            lemma_find_push(without(es.drop_last(), k), es.last().0, es.last().1, k2);
        }
    }
}

proof fn lemma_without_members(es: Seq<EntryView>, k: Seq<char>)
    ensures
        without(es, k).len() <= es.len(),
        forall|i: int|
            0 <= i < without(es, k).len() ==> (without(es, k)[i].0 != k && exists|j: int|
                0 <= j < es.len() && es[j] == #[trigger] without(es, k)[i]),
        unique_keys(es) ==> unique_keys(without(es, k)),
    decreases es.len(),
{
    if es.len() > 0 {
        let p = es.drop_last();
        lemma_without_members(p, k);
        let w = without(p, k);
        assert forall|i: int| 0 <= i < w.len() implies exists|j: int|
            0 <= j < es.len() && es[j] == #[trigger] w[i] by {
            let j = choose|j: int| 0 <= j < p.len() && p[j] == w[i];
            assert(es[j] == w[i]);
        }
        if es.last().0 != k {
            let w2 = w.push(es.last());
            assert forall|i: int| 0 <= i < w2.len() implies w2[i].0 != k && exists|j: int|
                0 <= j < es.len() && es[j] == #[trigger] w2[i] by {
                if i < w.len() {
                    assert(w2[i] == w[i]);
                } else {
                    assert(es[es.len() - 1] == w2[i]);
                }
            }
            if unique_keys(es) {
                assert forall|a: int, b: int| 0 <= a < b < w2.len() implies w2[a].0 != w2[b].0 by {
                    if b == w2.len() - 1 {
                        let j = choose|j: int| 0 <= j < p.len() && p[j] == w[a];
                        assert(es[j] == w2[a]);
                        assert(es[es.len() - 1] == w2[b]);
                    } else {
                        assert(w2[a] == w[a] && w2[b] == w[b]);
                    }
                }
            }
        }
    }
}

proof fn lemma_find_push(s: Seq<EntryView>, k: Seq<char>, v: Seq<char>, k2: Seq<char>)
    ensures
        find(s.push((k, v)), k2) == if k2 == k {
            Some(v)
        } else {
            find(s, k2)
        },
{
    assert(s.push((k, v)).drop_last() =~= s);
}

proof fn lemma_unique_push(s: Seq<EntryView>, k: Seq<char>, v: Seq<char>)
    requires
        unique_keys(s),
        forall|i: int| 0 <= i < s.len() ==> s[i].0 != k,
    ensures
        unique_keys(s.push((k, v))),
{
    let t = s.push((k, v));
    assert forall|a: int, b: int| 0 <= a < b < t.len() implies t[a].0 != t[b].0 by {
        if b == s.len() {
            assert(t[a] == s[a]);
        } else {
            assert(t[a] == s[a] && t[b] == s[b]);
        }
    }
}

proof fn lemma_with_entry(es: Seq<EntryView>, k: Seq<char>, v: Seq<char>, cap: nat)
    requires
        unique_keys(es),
        cap >= 1,
        es.len() <= cap,
    ensures
        unique_keys(with_entry(es, k, v, cap)),
        with_entry(es, k, v, cap).len() <= cap,
        find(with_entry(es, k, v, cap), k) == Some(v),
{
    lemma_without_members(es, k);
    let w = without(es, k);
    let s = w.push((k, v));
    lemma_unique_push(w, k, v);
    lemma_find_push(w, k, v, k);
    if s.len() > cap {
        let d = s.drop_first();
        assert forall|a: int, b: int| 0 <= a < b < d.len() implies d[a].0 != d[b].0 by {
            assert(d[a] == s[a + 1] && d[b] == s[b + 1]);
        }
        assert(d.drop_last() =~= s.drop_last().drop_first());
        assert(d.last() == s.last());
    }
}

/// Storing `k -> v` leaves every other key's id as it was, unless that entry
/// was the least recent one and was dropped to keep within capacity.
proof fn lemma_with_entry_other(es: Seq<EntryView>, k: Seq<char>, v: Seq<char>, cap: nat, k2: Seq<char>)
    requires
        unique_keys(es),
        cap >= 1,
        es.len() <= cap,
        k2 != k,
    ensures
        find(with_entry(es, k, v, cap), k2) == find(es, k2) || find(with_entry(es, k, v, cap), k2) is None,
{
    lemma_without_members(es, k);
    let w = without(es, k);
    let s = w.push((k, v));
    lemma_find_push(w, k, v, k2);
    lemma_find_without_other(es, k, k2);
    lemma_unique_push(w, k, v);
    if s.len() > cap {
        lemma_find_drop_first(s, k2);
    }
}

proof fn lemma_find_drop_first(s: Seq<EntryView>, k: Seq<char>)
    requires
        s.len() > 0,
        unique_keys(s),
    ensures
        find(s.drop_first(), k) == find(s, k) || find(s.drop_first(), k) is None,
    decreases s.len(),
{
    if s.len() > 1 {
        assert(s.drop_first().drop_last() =~= s.drop_last().drop_first());
        assert(s.drop_first().last() == s.last());
        assert forall|a: int, b: int| 0 <= a < b < s.drop_last().len() implies s.drop_last()[a].0
            != s.drop_last()[b].0 by {
            assert(s.drop_last()[a] == s[a] && s.drop_last()[b] == s[b]);
        }
        lemma_find_drop_first(s.drop_last(), k);
    }
}

/// A least-recently-used map from external session ids to cursor session ids.
/// Entries are kept oldest first; none is kept beyond the capacity.
#[derive(Debug)]
pub struct SessionCache {
    entries: Vec<(String, String)>,
    capacity: usize,
}

impl View for SessionCache {
    type V = Seq<EntryView>;

    closed spec fn view(&self) -> Seq<EntryView> {
        entries_view(self.entries@)
    }
}

impl SessionCache {
    /// Capacity at least 1, within capacity, no external id twice.
    #[verifier::type_invariant]
    closed spec fn inv(self) -> bool {
        &&& self.capacity >= 1
        &&& self.entries@.len() <= self.capacity
        &&& unique_keys(entries_view(self.entries@))
    }

    /// The most entries the cache keeps.
    pub closed spec fn cap(&self) -> nat {
        self.capacity as nat
    }

    /// Well-formed: capacity at least 1, within capacity, no key twice.
    pub open spec fn wf(&self) -> bool {
        &&& self.cap() >= 1
        &&& self@.len() <= self.cap()
        &&& unique_keys(self@)
    }

    /// An empty cache keeping at most `capacity` entries (at least one).
    pub fn new(capacity: usize) -> (r: Self)
        ensures
            r.wf(),
            r@ == Seq::<EntryView>::empty(),
            r.cap() == if capacity == 0 {
                1
            } else {
                capacity as nat
            },
    {
        let entries: Vec<(String, String)> = Vec::new();
        assert(entries_view(entries@) =~= Seq::<EntryView>::empty());
        SessionCache { entries, capacity: if capacity == 0 {
            1
        } else {
            capacity
        } }
    }

    /// The most entries the cache keeps.
    pub fn capacity(&self) -> (n: usize)
        ensures
            n as nat == self.cap(),
    {
        self.capacity
    }

    /// Number of entries.
    pub fn len(&self) -> (n: usize)
        ensures
            n as nat == self@.len(),
    {
        self.entries.len()
    }

    /// The entries, oldest first (for persistence).
    pub fn entries(&self) -> (r: &Vec<(String, String)>)
        ensures
            entries_view(r@) == self@,
            self.wf(),
    {
        proof {
            use_type_invariant(self);
        }
        &self.entries
    }

    /// Removes the entry for `key`, keeping the order of the others.
    fn drop_key(&mut self, key: &str)
        ensures
            final(self)@ == without(old(self)@, key@),
            final(self).cap() == old(self).cap(),
            old(self).wf(),
            final(self).wf(),
    {
        proof {
            use_type_invariant(&*self);
        }
        let ghost es = self@;
        let mut out: Vec<(String, String)> = Vec::new();
        let mut i: usize = 0;
        assert(es.take(0) =~= Seq::<EntryView>::empty());
        assert(entries_view(out@) =~= Seq::<EntryView>::empty());
        while i < self.entries.len()
            invariant
                i <= self.entries@.len(),
                es == entries_view(self.entries@),
                entries_view(out@) == without(es.take(i as int), key@),
            decreases self.entries@.len() - i,
        {
            let ghost before = out@;
            assert(es.take(i + 1).drop_last() =~= es.take(i as int));
            assert(es.take(i + 1).last() == entry_view(self.entries@[i as int]));
            let e = &self.entries[i];
            if !str_eq(e.0.as_str(), key) {
                out.push((e.0.clone(), e.1.clone()));
                assert(entries_view(out@) =~= entries_view(before).push(entry_view(self.entries@[i as int])));
            }
            i = i + 1;
        }
        assert(es.take(es.len() as int) =~= es);
        proof {
            lemma_without_members(es, key@);
        }
        self.entries = out;
    }

    /// Looks up the cursor session id for `key`; a found entry becomes the
    /// most recent.
    pub fn get(&mut self, key: &str) -> (r: Option<String>)
        ensures
            final(self).wf(),
            final(self).cap() == old(self).cap(),
            match r {
                Some(v) => find(old(self)@, key@) == Some(v@),
                None => find(old(self)@, key@) is None,
            },
            final(self)@ == touched(old(self)@, key@),
    {
        proof {
            use_type_invariant(&*self);
        }
        let ghost es = self@;
        let mut i: usize = self.entries.len();
        assert(es.take(i as int) =~= es);
        while i > 0
            invariant
                i <= self.entries@.len(),
                es == entries_view(self.entries@),
                self.wf(),
                self.cap() == old(self).cap(),
                es == old(self)@,
                find(es, key@) == find(es.take(i as int), key@),
            decreases i,
        {
            assert(es.take(i as int).drop_last() =~= es.take(i - 1));
            assert(es.take(i as int).last() == entry_view(self.entries@[i - 1]));
            if str_eq(self.entries[i - 1].0.as_str(), key) {
                let v = self.entries[i - 1].1.clone();
                self.drop_key(key);
                let mut es2: Vec<(String, String)> = Vec::new();
                std::mem::swap(&mut es2, &mut self.entries);
                let ghost before = es2@;
                es2.push((key.to_owned(), v.clone()));
                proof {
                    assert(entries_view(es2@) =~= entries_view(before).push((key@, v@)));
                    lemma_without_members(es, key@);
                    lemma_unique_push(without(es, key@), key@, v@);
                    lemma_find_without_same(es, key@);
                    let w = without(es, key@);
                    if w.len() == es.len() {
                        assert(find(es, key@) is Some);
                        lemma_find_some_member(es, key@);
                        let j = choose|j: int| 0 <= j < es.len() && es[j].0 == key@;
                        lemma_without_len_drop(es, key@, j);
                    }
                }
                self.entries = es2;
                return Some(v);
            }
            i = i - 1;
        }
        assert(es.take(0) =~= Seq::<EntryView>::empty());
        None
    }

    /// Stores `key -> value` as the most recent entry, replacing any entry
    /// for `key` and dropping the least recent one when over capacity.
    pub fn put(&mut self, key: String, value: String)
        ensures
            final(self).wf(),
            final(self).cap() == old(self).cap(),
            final(self)@ == with_entry(old(self)@, key@, value@, old(self).cap()),
    {
        proof {
            use_type_invariant(&*self);
        }
        let ghost es = self@;
        self.drop_key(key.as_str());
        let mut es2: Vec<(String, String)> = Vec::new();
        std::mem::swap(&mut es2, &mut self.entries);
        let ghost before = es2@;
        es2.push((key, value));
        assert(entries_view(es2@) =~= entries_view(before).push((key@, value@)));
        if es2.len() > self.capacity {
            let ghost full = es2@;
            es2.remove(0);
            assert(entries_view(es2@) =~= entries_view(full).drop_first());
        }
        proof {
            lemma_with_entry(es, key@, value@, self.cap());
        }
        self.entries = es2;
    }

    /// Forgets the entry for `key`.
    pub fn remove(&mut self, key: &str)
        ensures
            final(self).wf(),
            final(self).cap() == old(self).cap(),
            final(self)@ == without(old(self)@, key@),
    {
        self.drop_key(key);
    }

    /// Stores each `[external, cursor]` pair of a parsed persistence file, in
    /// order; other items are passed over.
    pub fn load_json(&mut self, v: &Json)
        ensures
            final(self).wf(),
            final(self).cap() == old(self).cap(),
            final(self)@ == loaded(old(self)@, *v, old(self).cap()),
    {
        proof {
            use_type_invariant(&*self);
        }
        match v {
            Json::Array(items) => {
                let ghost start = self@;
                let mut i: usize = 0;
                assert(items@.take(0) =~= Seq::<Json>::empty());
                while i < items.len()
                    invariant
                        i <= items@.len(),
                        self.wf(),
                        self.cap() == old(self).cap(),
                        start == old(self)@,
                        self@ == put_items(start, items@.take(i as int), self.cap()),
                    decreases items@.len() - i,
                {
                    assert(items@.take(i + 1).drop_last() =~= items@.take(i as int));
                    assert(items@.take(i + 1).last() == items@[i as int]);
                    match &items[i] {
                        Json::Array(pair) => {
                            if pair.len() == 2 {
                                match (&pair[0], &pair[1]) {
                                    (Json::Str(k), Json::Str(c)) => {
                                        self.put(k.clone(), c.clone());
                                    },
                                    _ => {},
                                }
                            }
                        },
                        _ => {},
                    }
                    i = i + 1;
                }
                assert(items@.take(items@.len() as int) =~= items@);
            },
            _ => {},
        }
    }

    /// The persistence file's content for this cache: its entries as
    /// `[external, cursor]` pairs, least recent first.
    pub fn to_persisted(&self) -> (r: Json)
        ensures
            persists(self@, r),
    {
        let mut items: Vec<Json> = Vec::new();
        let mut i: usize = 0;
        while i < self.entries.len()
            invariant
                i <= self.entries@.len(),
                items@.len() == i,
                forall|j: int| 0 <= j < i ==> pair_entry(#[trigger] items@[j]) == Some(self@[j]),
            decreases self.entries@.len() - i,
        {
            let e = &self.entries[i];
            let mut pair: Vec<Json> = Vec::new();
            pair.push(Json::Str(e.0.clone()));
            pair.push(Json::Str(e.1.clone()));
            items.push(Json::Array(pair));
            i = i + 1;
        }
        Json::Array(items)
    }

    /// A cache of the given capacity holding what a persistence file's text
    /// records (nothing when it does not parse).
    pub fn from_persisted(text: &str, capacity: usize) -> (r: Self)
        ensures
            r.wf(),
            r.cap() == if capacity == 0 {
                1
            } else {
                capacity as nat
            },
            r@ == match json_parse(text@) {
                Some(v) => loaded(Seq::empty(), v, r.cap()),
                None => Seq::<EntryView>::empty(),
            },
    {
        let mut c = SessionCache::new(capacity);
        match parse_json(text) {
            Some(v) => c.load_json(&v),
            None => {},
        }
        c
    }
}

proof fn lemma_find_some_member(es: Seq<EntryView>, k: Seq<char>)
    requires
        find(es, k) is Some,
    ensures
        exists|j: int| 0 <= j < es.len() && es[j].0 == k,
    decreases es.len(),
{
    if es.last().0 == k {
        assert(es[es.len() - 1].0 == k);
    } else {
        lemma_find_some_member(es.drop_last(), k);
        let j = choose|j: int| 0 <= j < es.drop_last().len() && es.drop_last()[j].0 == k;
        assert(es[j].0 == k);
    }
}

proof fn lemma_without_len_drop(es: Seq<EntryView>, k: Seq<char>, j: int)
    requires
        0 <= j < es.len(),
        es[j].0 == k,
    ensures
        without(es, k).len() < es.len(),
    decreases es.len(),
{
    lemma_without_members(es.drop_last(), k);
    if j < es.len() - 1 {
        lemma_without_len_drop(es.drop_last(), k, j);
    }
}

/// The entry a persisted item stands for: a pair of strings, external id
/// then cursor id.
pub open spec fn pair_entry(item: Json) -> Option<EntryView> {
    match item {
        Json::Array(p) => if p@.len() == 2 {
            match p@[0] {
                Json::Str(k) => match p@[1] {
                    Json::Str(c) => Some((k@, c@)),
                    _ => None,
                },
                _ => None,
            }
        } else {
            None
        },
        _ => None,
    }
}

/// The entries after storing each pair, in order.
pub open spec fn put_items(es: Seq<EntryView>, items: Seq<Json>, cap: nat) -> Seq<EntryView>
    decreases items.len(),
{
    if items.len() == 0 {
        es
    } else {
        let before = put_items(es, items.drop_last(), cap);
        match pair_entry(items.last()) {
            Some(e) => with_entry(before, e.0, e.1, cap),
            None => before,
        }
    }
}

/// The entries after loading a parsed persistence file: its pairs when it
/// is an array, else nothing changes.
pub open spec fn loaded(es: Seq<EntryView>, v: Json, cap: nat) -> Seq<EntryView> {
    match v {
        Json::Array(items) => put_items(es, items@, cap),
        _ => es,
    }
}

/// `v` records the entries `es`: an array with one pair per entry, in order.
pub open spec fn persists(es: Seq<EntryView>, v: Json) -> bool {
    &&& v is Array
    &&& v->Array_0@.len() == es.len()
    &&& forall|i: int| 0 <= i < es.len() ==> pair_entry(#[trigger] v->Array_0@[i]) == Some(es[i])
}

proof fn lemma_without_absent(es: Seq<EntryView>, k: Seq<char>)
    requires
        forall|i: int| 0 <= i < es.len() ==> es[i].0 != k,
    ensures
        without(es, k) == es,
    decreases es.len(),
{
    if es.len() > 0 {
        lemma_without_absent(es.drop_last(), k);
        assert(es.drop_last().push(es.last()) =~= es);
    }
}

proof fn lemma_reload(items: Seq<Json>, es: Seq<EntryView>, cap: nat)
    requires
        items.len() == es.len(),
        forall|i: int| 0 <= i < es.len() ==> pair_entry(#[trigger] items[i]) == Some(es[i]),
        unique_keys(es),
        es.len() <= cap,
    ensures
        put_items(Seq::empty(), items, cap) == es,
    decreases items.len(),
{
    if items.len() > 0 {
        let prev = es.drop_last();
        assert forall|i: int| 0 <= i < prev.len() implies pair_entry(#[trigger] items.drop_last()[i]) == Some(prev[i]) by {
            assert(items.drop_last()[i] == items[i]);
        }
        lemma_reload(items.drop_last(), prev, cap);
        assert(pair_entry(items[items.len() - 1]) == Some(es[es.len() - 1]));
        let k = es.last().0;
        assert forall|i: int| 0 <= i < prev.len() implies prev[i].0 != k by {
            assert(es[i].0 != es[es.len() - 1].0);
        }
        lemma_without_absent(prev, k);
        assert(prev.push(es.last()) =~= es);
    }
}

/// Persistence keeps every mapping and its recency: reloading what a cache
/// records gives back exactly its entries, in the same order.
pub proof fn law_reload_keeps_entries(es: Seq<EntryView>, v: Json, cap: nat)
    requires
        persists(es, v),
        unique_keys(es),
        es.len() <= cap,
    ensures
        loaded(Seq::empty(), v, cap) == es,
{
    lemma_reload(v->Array_0@, es, cap);
}

/// Read after write: once `k -> v` is stored, looking `k` up gives `v`.
pub proof fn law_get_after_put(es: Seq<EntryView>, k: Seq<char>, v: Seq<char>, cap: nat)
    requires
        unique_keys(es),
        cap >= 1,
        es.len() <= cap,
    ensures
        find(with_entry(es, k, v, cap), k) == Some(v),
{
    lemma_with_entry(es, k, v, cap);
}

/// Storing one key leaves every other key's id unchanged, or drops it when it
/// was the least recent entry and the cache was full.
pub proof fn law_put_keeps_others(es: Seq<EntryView>, k: Seq<char>, v: Seq<char>, cap: nat, k2: Seq<char>)
    requires
        unique_keys(es),
        cap >= 1,
        es.len() <= cap,
        k2 != k,
    ensures
        find(with_entry(es, k, v, cap), k2) == find(es, k2) || find(with_entry(es, k, v, cap), k2) is None,
        es.len() < cap ==> find(with_entry(es, k, v, cap), k2) == find(es, k2),
{
    lemma_with_entry_other(es, k, v, cap, k2);
    lemma_without_members(es, k);
    let w = without(es, k);
    lemma_find_push(w, k, v, k2);
    lemma_find_without_other(es, k, k2);
}

/// After removing a key, looking it up finds nothing; other keys are unchanged.
pub proof fn law_get_after_remove(es: Seq<EntryView>, k: Seq<char>, k2: Seq<char>)
    ensures
        find(without(es, k), k) is None,
        k2 != k ==> find(without(es, k), k2) == find(es, k2),
{
    lemma_find_without_same(es, k);
    if k2 != k {
        lemma_find_without_other(es, k, k2);
    }
}

/// Reading a key never changes what any key maps to.
pub proof fn law_get_keeps_mapping(es: Seq<EntryView>, k: Seq<char>, k2: Seq<char>)
    ensures
        find(touched(es, k), k2) == find(es, k2),
{
    match find(es, k) {
        Some(v) => {
            lemma_find_push(without(es, k), k, v, k2);
            if k2 != k {
                lemma_find_without_other(es, k, k2);
            }
        },
        None => {},
    }
}

} // verus!
