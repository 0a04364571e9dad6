use vstd::prelude::*;

use serde_json::Value;

use crate::ids::IdGenerator;
use crate::value::copy_value;

verus! {

/// A record as contracts see it: its key's characters and its document.
pub type EntryView = (Seq<char>, Value);

/// The records of a vector, as contracts see them.
pub open spec fn entries_view(v: Seq<(String, Value)>) -> Seq<EntryView> {
    v.map_values(|e: (String, Value)| (e.0@, e.1))
}

/// Some record of `s` has the key `k`.
pub open spec fn has_key(s: Seq<EntryView>, k: Seq<char>) -> bool {
    exists|i: int| 0 <= i < s.len() && s[i].0 == k
}

/// No two records of `s` share a key.
pub open spec fn keys_unique(s: Seq<EntryView>) -> bool {
    forall|i: int, j: int| 0 <= i < s.len() && 0 <= j < s.len() && i != j ==> s[i].0 != s[j].0
}

/// The position of the record with key `k`, where there is one.
pub open spec fn index_of(s: Seq<EntryView>, k: Seq<char>) -> int {
    choose|i: int| 0 <= i < s.len() && s[i].0 == k
}

/// The document stored under `k`, if any.
pub open spec fn lookup(s: Seq<EntryView>, k: Seq<char>) -> Option<Value> {
    if has_key(s, k) {
        Some(s[index_of(s, k)].1)
    } else {
        None
    }
}

/// The records after an upsert of `(k, v)`: a record with key `k` is
/// replaced where it stands; otherwise the new record goes last.
pub open spec fn put_entries(s: Seq<EntryView>, k: Seq<char>, v: Value) -> Seq<EntryView> {
    if has_key(s, k) {
        s.update(index_of(s, k), (k, v))
    } else {
        s.push((k, v))
    }
}

/// The records after removing the one with key `k`, if any; the others keep
/// their order.
pub open spec fn delete_entries(s: Seq<EntryView>, k: Seq<char>) -> Seq<EntryView> {
    if has_key(s, k) {
        s.remove(index_of(s, k))
    } else {
        s
    }
}

/// The slice of `s` that starts at `offset` and holds at most `limit`
/// records; empty where `offset` is past the end.
pub open spec fn page(s: Seq<EntryView>, offset: int, limit: int) -> Seq<EntryView> {
    let start = if offset < s.len() { offset } else { s.len() as int };
    let end = if offset + limit < s.len() { offset + limit } else { s.len() as int };
    s.subrange(start, end)
}

/// The length of the longest key in `s`.
spec fn max_key_len(s: Seq<EntryView>) -> nat
    decreases s.len(),
{
    if s.len() == 0 {
        0
    } else {
        let m = max_key_len(s.drop_last());
        let l = s.last().0.len();
        if l > m {
            l
        } else {
            m
        }
    }
}

proof fn lemma_max_key_len(s: Seq<EntryView>)
    ensures
        forall|i: int| 0 <= i < s.len() ==> s[i].0.len() <= max_key_len(s),
    decreases s.len(),
{
    if s.len() > 0 {
        lemma_max_key_len(s.drop_last());
        assert forall|i: int| 0 <= i < s.len() implies s[i].0.len() <= max_key_len(s) by {
            if i < s.len() - 1 {
                assert(s[i] == s.drop_last()[i]);
            }
        }
    }
}

/// With unique keys, the record with key `k` stands at the one position `i`
/// that holds it.
pub proof fn lemma_index_of(s: Seq<EntryView>, k: Seq<char>, i: int)
    requires
        keys_unique(s),
        0 <= i < s.len(),
        s[i].0 == k,
    ensures
        has_key(s, k),
        index_of(s, k) == i,
        lookup(s, k) == Some(s[i].1),
{
    assert(has_key(s, k));
}

/// An upsert keeps the keys unique.
pub proof fn lemma_put_keeps_unique(s: Seq<EntryView>, k: Seq<char>, v: Value)
    requires
        keys_unique(s),
    ensures
        keys_unique(put_entries(s, k, v)),
        has_key(put_entries(s, k, v), k),
{
    if has_key(s, k) {
        let i = index_of(s, k);
        assert(put_entries(s, k, v)[i].0 == k);
    } else {
        assert(put_entries(s, k, v)[s.len() as int].0 == k);
    }
}

/// A removal keeps the keys unique.
pub proof fn lemma_delete_keeps_unique(s: Seq<EntryView>, k: Seq<char>)
    requires
        keys_unique(s),
    ensures
        keys_unique(delete_entries(s, k)),
{
    if has_key(s, k) {
        let i = index_of(s, k);
        let t = s.remove(i);
        assert forall|a: int, b: int| 0 <= a < t.len() && 0 <= b < t.len() && a != b implies t[a].0
            != t[b].0 by {
            let sa = if a < i { a } else { a + 1 };
            let sb = if b < i { b } else { b + 1 };
            assert(t[a] == s[sa]);
            assert(t[b] == s[sb]);
        }
    }
}

/// An in-memory keyed store of documents. Keys are unique, and records are
/// enumerated in the order in which their keys were first stored.
pub struct Store {
    entries: Vec<(String, Value)>,
    ids: IdGenerator,
}

impl Store {
    /// The records, in enumeration order.
    pub closed spec fn entries(&self) -> Seq<EntryView> {
        entries_view(self.entries@)
    }

    /// The store's invariant: keys are unique.
    pub open spec fn wf(&self) -> bool {
        keys_unique(self.entries())
    }

    /// An empty store.
    pub fn new() -> (r: Store)
        ensures
            r.wf(),
            r.entries() == Seq::<EntryView>::empty(),
    {
        let r = Store { entries: Vec::new(), ids: IdGenerator::new() };
        assert(r.entries() =~= Seq::<EntryView>::empty());
        r
    }

    /// The number of records.
    pub fn len(&self) -> (r: usize)
        ensures
            r == self.entries().len(),
    {
        self.entries.len()
    }

    /// The position of the record with key `key`, if there is one.
    fn position(&self, key: &String) -> (r: Option<usize>)
        requires
            self.wf(),
        ensures
            match r {
                Some(i) => i < self.entries().len() && self.entries()[i as int].0 == key@
                    && index_of(self.entries(), key@) == i,
                None => !has_key(self.entries(), key@),
            },
    {
        let mut i: usize = 0;
        while i < self.entries.len()
            invariant
                self.wf(),
                i <= self.entries().len(),
                self.entries().len() == self.entries@.len(),
                forall|j: int| 0 <= j < i ==> self.entries()[j].0 != key@,
            decreases self.entries@.len() - i,
        {
            if self.entries[i].0 == *key {
                proof {
                    lemma_index_of(self.entries(), key@, i as int);
                }
                return Some(i);
            }
            i = i + 1;
        }
        None
    }

    /// A copy of the document stored under `key`, or `None` where no record
    /// has that key.
    pub fn get(&self, key: &String) -> (r: Option<Value>)
        requires
            self.wf(),
        ensures
            r == lookup(self.entries(), key@),
    {
        match self.position(key) {
            Some(i) => {
                proof {
                    lemma_index_of(self.entries(), key@, i as int);
                }
                Some(copy_value(&self.entries[i].1))
            },
            None => None,
        }
    }

    /// A key that no record has: the generator's next key, lengthened where
    /// a record already has it.
    fn fresh_key(&mut self) -> (r: String)
        requires
            old(self).wf(),
        ensures
            final(self).wf(),
            final(self).entries() == old(self).entries(),
            !has_key(old(self).entries(), r@),
    {
        let mut candidate = self.ids.next_key();
        proof {
            lemma_max_key_len(self.entries());
        }
        loop
            invariant
                self.wf(),
                self.entries() == old(self).entries(),
                forall|i: int|
                    0 <= i < self.entries().len() ==> self.entries()[i].0.len() <= max_key_len(
                        self.entries(),
                    ),
            decreases max_key_len(self.entries()) + 1 - candidate@.len(),
        {
            match self.position(&candidate) {
                None => {
                    return candidate;
                },
                Some(i) => {
                    proof {
                        reveal_strlit("-");
                    }
                    candidate.append("-");
                },
            }
        }
    }

    /// Stores `value` under `key`, or under a freshly generated key where
    /// `key` is `None`, replacing any document already stored under that key.
    /// Returns the key used.
    pub fn put(&mut self, key: Option<String>, value: Value) -> (r: String)
        requires
            old(self).wf(),
        ensures
            final(self).wf(),
            key is Some ==> r@ == key->Some_0@,
            key is None ==> !has_key(old(self).entries(), r@),
            final(self).entries() == put_entries(old(self).entries(), r@, value),
    {
        let k = match key {
            Some(k) => k,
            None => self.fresh_key(),
        };
        proof {
            lemma_put_keeps_unique(self.entries(), k@, value);
        }
        let ghost before = self.entries@;
        let rk = k.clone();
        match self.position(&k) {
            Some(i) => self.entries.set(i, (k, value)),
            None => self.entries.push((k, value)),
        }
        assert(self.entries() =~= put_entries(entries_view(before), rk@, value));
        rk
    }

    /// Removes the record with key `key`. Returns whether there was one.
    pub fn delete(&mut self, key: &String) -> (r: bool)
        requires
            old(self).wf(),
        ensures
            final(self).wf(),
            r == has_key(old(self).entries(), key@),
            final(self).entries() == delete_entries(old(self).entries(), key@),
            final(self).entries().len() == if r {
                old(self).entries().len() - 1
            } else {
                old(self).entries().len() as int
            },
    {
        proof {
            lemma_delete_keeps_unique(self.entries(), key@);
        }
        match self.position(key) {
            Some(i) => {
                let ghost before = self.entries@;
                let _removed = self.entries.remove(i);
                assert(self.entries() =~= delete_entries(entries_view(before), key@));
                true
            },
            None => false,
        }
    }

    /// The records from position `offset` on, at most `limit` of them, in
    /// enumeration order, with the number of records in the whole store.
    pub fn list(&self, offset: usize, limit: usize) -> (r: (Vec<(String, Value)>, usize))
        ensures
            entries_view(r.0@) == page(self.entries(), offset as int, limit as int),
            r.1 == self.entries().len(),
    {
        let len = self.entries.len();
        let start = if offset < len {
            offset
        } else {
            len
        };
        let end = if limit < len - start {
            start + limit
        } else {
            len
        };
        let mut items: Vec<(String, Value)> = Vec::new();
        let mut i: usize = start;
        while i < end
            invariant
                start <= i <= end <= len,
                len == self.entries@.len(),
                entries_view(items@) =~= self.entries().subrange(start as int, i as int),
            decreases end - i,
        {
            let key = self.entries[i].0.clone();
            let doc = copy_value(&self.entries[i].1);
            assert(self.entries()[i as int] == (key@, doc));
            let ghost before = items@;
            items.push((key, doc));
            assert(entries_view(items@) =~= entries_view(before).push(self.entries()[i as int]));
            i = i + 1;
        }
        assert(entries_view(items@) =~= page(self.entries(), offset as int, limit as int));
        (items, len)
    }
}

/// Upserts and lookups: after `(k, v)` is stored, a lookup of `k` gives `v`,
/// and a lookup of any other key gives what it gave before.
pub proof fn lemma_put_then_get(s: Seq<EntryView>, k: Seq<char>, v: Value, other: Seq<char>)
    requires
        keys_unique(s),
    ensures
        lookup(put_entries(s, k, v), k) == Some(v),
        other != k ==> lookup(put_entries(s, k, v), other) == lookup(s, other),
{
    let t = put_entries(s, k, v);
    lemma_put_keeps_unique(s, k, v);
    if has_key(s, k) {
        let i = index_of(s, k);
        lemma_index_of(t, k, i);
    } else {
        lemma_index_of(t, k, s.len() as int);
    }
    if other != k {
        if has_key(s, other) {
            let j = index_of(s, other);
            assert(s[j].0 == other);
            if has_key(s, k) {
                assert(s[index_of(s, k)].0 == k);
            }
            assert(t[j] == s[j]);
            lemma_index_of(t, other, j);
        } else {
            assert forall|j: int| 0 <= j < t.len() implies t[j].0 != other by {
                if has_key(s, k) {
                    assert(s[index_of(s, k)].0 == k);
                }
                if j < s.len() && !(has_key(s, k) && j == index_of(s, k)) {
                    assert(t[j] == s[j]);
                }
            }
        }
    }
}

/// Generated keys never collide: once a key that no record had is stored,
/// a key that no record of the result has differs from it.
pub proof fn lemma_fresh_keys_differ(s: Seq<EntryView>, first: Seq<char>, v: Value, second: Seq<char>)
    requires
        !has_key(s, first),
        !has_key(put_entries(s, first, v), second),
    ensures
        first != second,
{
    assert(put_entries(s, first, v)[s.len() as int].0 == first);
}

/// The records after one write: `(k, Some(v))` stores `v` under `k`,
/// `(k, None)` removes the record with key `k`.
pub open spec fn apply_write(s: Seq<EntryView>, w: (Seq<char>, Option<Value>)) -> Seq<EntryView> {
    match w.1 {
        Some(v) => put_entries(s, w.0, v),
        None => delete_entries(s, w.0),
    }
}

/// The records after the writes `ws`, first to last.
pub open spec fn apply_writes(s: Seq<EntryView>, ws: Seq<(Seq<char>, Option<Value>)>) -> Seq<
    EntryView,
>
    decreases ws.len(),
{
    if ws.len() == 0 {
        s
    } else {
        apply_write(apply_writes(s, ws.drop_last()), ws.last())
    }
}

/// Any sequence of writes keeps the keys unique.
pub proof fn lemma_writes_keep_unique(s: Seq<EntryView>, ws: Seq<(Seq<char>, Option<Value>)>)
    requires
        keys_unique(s),
    ensures
        keys_unique(apply_writes(s, ws)),
    decreases ws.len(),
{
    if ws.len() > 0 {
        lemma_writes_keep_unique(s, ws.drop_last());
        let t = apply_writes(s, ws.drop_last());
        match ws.last().1 {
            Some(v) => lemma_put_keeps_unique(t, ws.last().0, v),
            None => lemma_delete_keeps_unique(t, ws.last().0),
        }
    }
}

/// A removal of one key leaves the lookup of every other key as it was.
pub proof fn lemma_delete_other(s: Seq<EntryView>, k: Seq<char>, other: Seq<char>)
    requires
        keys_unique(s),
        other != k,
    ensures
        lookup(delete_entries(s, k), other) == lookup(s, other),
{
    if has_key(s, k) {
        let i = index_of(s, k);
        assert(s[i].0 == k);
        let t = s.remove(i);
        lemma_delete_keeps_unique(s, k);
        if has_key(s, other) {
            let j = index_of(s, other);
            assert(s[j].0 == other);
            let tj = if j < i { j } else { j - 1 };
            assert(t[tj] == s[j]);
            lemma_index_of(t, other, tj);
        } else {
            assert forall|a: int| 0 <= a < t.len() implies t[a].0 != other by {
                let sa = if a < i { a } else { a + 1 };
                assert(t[a] == s[sa]);
            }
        }
    }
}

/// The last put wins: after any sequence of writes, a lookup of `k` gives
/// the document of the last write that stored under `k`, provided no later
/// write touches `k`. Writes to other keys, puts and removals alike, never
/// change what a lookup of `k` gives.
pub proof fn lemma_last_put_wins(
    s: Seq<EntryView>,
    ws: Seq<(Seq<char>, Option<Value>)>,
    i: int,
    k: Seq<char>,
    v: Value,
)
    requires
        keys_unique(s),
        0 <= i < ws.len(),
        ws[i] == (k, Some(v)),
        forall|j: int| i < j < ws.len() ==> ws[j].0 != k,
    ensures
        lookup(apply_writes(s, ws), k) == Some(v),
    decreases ws.len(),
{
    let prefix = ws.drop_last();
    lemma_writes_keep_unique(s, prefix);
    let t = apply_writes(s, prefix);
    if i == ws.len() - 1 {
        lemma_put_then_get(t, k, v, k);
    } else {
        assert forall|j: int| i < j < prefix.len() implies prefix[j].0 != k by {
            assert(prefix[j] == ws[j]);
        }
        assert(prefix[i] == ws[i]);
        lemma_last_put_wins(s, prefix, i, k, v);
        match ws.last().1 {
            Some(w) => lemma_put_then_get(t, ws.last().0, w, k),
            None => lemma_delete_other(t, ws.last().0, k),
        }
    }
}

/// Writes that leave `k` alone leave its lookup alone.
pub proof fn lemma_writes_elsewhere(
    s: Seq<EntryView>,
    ws: Seq<(Seq<char>, Option<Value>)>,
    k: Seq<char>,
)
    requires
        keys_unique(s),
        forall|j: int| 0 <= j < ws.len() ==> ws[j].0 != k,
    ensures
        lookup(apply_writes(s, ws), k) == lookup(s, k),
    decreases ws.len(),
{
    if ws.len() > 0 {
        let prefix = ws.drop_last();
        assert forall|j: int| 0 <= j < prefix.len() implies prefix[j].0 != k by {
            assert(prefix[j] == ws[j]);
        }
        lemma_writes_elsewhere(s, prefix, k);
        lemma_writes_keep_unique(s, prefix);
        let t = apply_writes(s, prefix);
        match ws.last().1 {
            Some(w) => lemma_put_then_get(t, ws.last().0, w, k),
            None => lemma_delete_other(t, ws.last().0, k),
        }
    }
}

/// Removing a key: the store has one record fewer where the key was present
/// and is unchanged where it was absent; afterwards no record has the key.
pub proof fn lemma_delete_len(s: Seq<EntryView>, k: Seq<char>)
    requires
        keys_unique(s),
    ensures
        has_key(s, k) ==> delete_entries(s, k).len() == s.len() - 1,
        !has_key(s, k) ==> delete_entries(s, k) == s,
        lookup(delete_entries(s, k), k) is None,
{
    if has_key(s, k) {
        let i = index_of(s, k);
        let t = s.remove(i);
        assert forall|j: int| 0 <= j < t.len() implies t[j].0 != k by {
            let sj = if j < i { j } else { j + 1 };
            assert(t[j] == s[sj]);
        }
    }
}

/// Consecutive pages: the page of `n` records at offset zero and the page of
/// `n` records at offset `n` together make the page of `2n` records at offset
/// zero, and with unique keys no record stands in both.
pub proof fn lemma_pages_concatenate(s: Seq<EntryView>, n: int)
    requires
        n >= 0,
    ensures
        page(s, 0, n) + page(s, n, n) == page(s, 0, 2 * n),
        keys_unique(s) ==> forall|a: int, b: int|
            0 <= a < page(s, 0, n).len() && 0 <= b < page(s, n, n).len() ==> page(s, 0, n)[a].0
                != page(s, n, n)[b].0,
{
    assert(page(s, 0, n) + page(s, n, n) =~= page(s, 0, 2 * n));
    if keys_unique(s) {
        assert forall|a: int, b: int|
            0 <= a < page(s, 0, n).len() && 0 <= b < page(s, n, n).len() implies page(s, 0, n)[a].0
            != page(s, n, n)[b].0 by {
            assert(page(s, 0, n)[a] == s[a]);
            assert(page(s, n, n)[b] == s[n + b]);
        }
    }
}

} // verus!
