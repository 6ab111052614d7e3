//! The hot tier: a bounded table from key to runtime value that drops the
//! entry used least recently when it is full.

use crate::value::{Value, ValueView};
use vstd::pervasive::unreached;
use vstd::prelude::*;
use vstd::string::*;

verus! {

/// `lru::LruCache`, carried as it is: nothing inside it is read here.
#[verifier::external_type_specification]
#[verifier::external_body]
#[verifier::reject_recursive_types(K)]
#[verifier::reject_recursive_types(V)]
#[verifier::reject_recursive_types(S)]
pub struct ExLruCache<K, V, S>(lru::LruCache<K, V, S>);

/// `lru::DefaultHasher`, the hasher of a table made by `LruCache::new`.
#[verifier::external_type_specification]
#[verifier::external_body]
pub struct ExDefaultHasher(lru::DefaultHasher);

/// One entry of the table: a key and the value stored under it.
pub type Entry = (Seq<char>, ValueView);

/// What the table holds, from the entry used most recently to the one used
/// least recently.
pub uninterp spec fn lru_entries(table: lru::LruCache<String, Value>) -> Seq<Entry>;

/// The number of entries that the table was made to hold.
pub uninterp spec fn lru_limit(table: lru::LruCache<String, Value>) -> nat;

/// Whether some entry has the key.
pub open spec fn holds<V>(entries: Seq<(Seq<char>, V)>, key: Seq<char>) -> bool {
    exists|i: int| 0 <= i < entries.len() && (#[trigger] entries[i]).0 == key
}

/// The place of an entry with the key, where there is one.
pub open spec fn slot<V>(entries: Seq<(Seq<char>, V)>, key: Seq<char>) -> int {
    choose|i: int| 0 <= i < entries.len() && (#[trigger] entries[i]).0 == key
}

/// The value stored under the key.
pub open spec fn found<V>(entries: Seq<(Seq<char>, V)>, key: Seq<char>) -> Option<V> {
    if holds(entries, key) {
        Some(entries[slot(entries, key)].1)
    } else {
        None
    }
}

/// The entries after the key was used: its entry, if there is one, has moved
/// to the front.
pub open spec fn touched(entries: Seq<Entry>, key: Seq<char>) -> Seq<Entry> {
    if holds(entries, key) {
        let i = slot(entries, key);
        seq![entries[i]] + entries.remove(i)
    } else {
        entries
    }
}

/// The entries after a value was put under the key in a table of the given
/// limit: the new entry stands in front. It replaces the entry that had the
/// key; where there was none and the table was full, the last entry is gone.
pub open spec fn stored(entries: Seq<Entry>, limit: nat, key: Seq<char>, value: ValueView) -> Seq<
    Entry,
> {
    if holds(entries, key) {
        seq![(key, value)] + entries.remove(slot(entries, key))
    } else if entries.len() < limit {
        seq![(key, value)] + entries
    } else {
        seq![(key, value)] + entries.drop_last()
    }
}

/// No key occurs twice.
pub open spec fn distinct_keys(entries: Seq<Entry>) -> bool {
    forall|i: int, j: int|
        0 <= i < j < entries.len() ==> (#[trigger] entries[i]).0 != (#[trigger] entries[j]).0
}

/// What holds of every table: it has room for an entry, holds no more
/// entries than its limit, and no key twice.
pub open spec fn table_ok(entries: Seq<Entry>, limit: nat) -> bool {
    &&& 0 < limit
    &&& entries.len() <= limit
    &&& distinct_keys(entries)
}

/// Every value in the table is well formed: no emote set among them has a
/// name twice.
pub open spec fn values_well_formed(entries: Seq<Entry>) -> bool {
    forall|i: int| 0 <= i < entries.len() ==> (#[trigger] entries[i]).1.well_formed()
}

/// An optional reference to a value taken by the value's view.
pub open spec fn ref_view(value: Option<&Value>) -> Option<ValueView> {
    match value {
        Some(v) => Some(v@),
        None => None,
    }
}

/// Calls `LruCache::new`. Trusted: the new table is empty and has the limit
/// that was asked for.
#[verifier::external_body]
fn lru_new(limit: u16) -> (table: lru::LruCache<String, Value>)
    requires
        limit > 0,
    ensures
        lru_entries(table) == Seq::<Entry>::empty(),
        lru_limit(table) == limit,
{
    lru::LruCache::new(std::num::NonZeroUsize::new(limit as usize).unwrap())
}

/// Calls `LruCache::contains`. Trusted: it tells whether the key has an
/// entry, and changes nothing.
#[verifier::external_body]
fn lru_contains(table: &lru::LruCache<String, Value>, key: &str) -> (present: bool)
    ensures
        present == holds(lru_entries(*table), key@),
{
    table.contains(key)
}

/// Calls `LruCache::get`. Trusted: it hands out the value stored under the
/// key, if there is one, and moves that entry to the front; the limit and
/// the other entries stay as they are. It does not panic.
#[verifier::external_body]
fn lru_get<'a>(table: &'a mut lru::LruCache<String, Value>, key: &str) -> (value: Option<
    &'a Value,
>)
    ensures
        ref_view(value) == found(lru_entries(*old(table)), key@),
        lru_entries(*final(table)) == touched(lru_entries(*old(table)), key@),
        lru_limit(*final(table)) == lru_limit(*old(table)),
    no_unwind
{
    table.get(key)
}

/// Calls `LruCache::put` and drops the value it returns. Trusted: the new
/// entry stands in front; an entry that had the key is replaced; where the
/// key is new and the table holds as many entries as its limit, the entry
/// used least recently is dropped. It does not panic.
#[verifier::external_body]
fn lru_put(table: &mut lru::LruCache<String, Value>, key: String, value: Value)
    ensures
        lru_entries(*final(table)) == stored(
            lru_entries(*old(table)),
            lru_limit(*old(table)),
            key@,
            value@,
        ),
        lru_limit(*final(table)) == lru_limit(*old(table)),
    no_unwind
{
    table.put(key, value);
}

/// In a table without repeated keys, the entry with a key is the only one.
pub proof fn lemma_slot_unique(entries: Seq<Entry>, key: Seq<char>, i: int)
    requires
        distinct_keys(entries),
        0 <= i < entries.len(),
        entries[i].0 == key,
    ensures
        holds(entries, key),
        slot(entries, key) == i,
        found(entries, key) == Some(entries[i].1),
{
    let j = slot(entries, key);
    if j < i {
        assert(entries[j].0 != entries[i].0);
    } else if i < j {
        assert(entries[i].0 != entries[j].0);
    }
}

/// Using a key changes the order of the entries and nothing else: the table
/// stays well formed, and every key has the value it had.
pub proof fn lemma_touched(entries: Seq<Entry>, limit: nat, key: Seq<char>, other: Seq<char>)
    requires
        table_ok(entries, limit),
    ensures
        table_ok(touched(entries, key), limit),
        touched(entries, key).len() == entries.len(),
        found(touched(entries, key), other) == found(entries, other),
        holds(entries, key) ==> touched(entries, key)[0] == (key, found(entries, key)->0),
{
    if holds(entries, key) {
        let i = slot(entries, key);
        let after = touched(entries, key);
        let back = |n: int| if n == 0 { i } else if n <= i { n - 1 } else { n };
        assert forall|a: int, b: int| 0 <= a < b < after.len() implies (#[trigger] after[a]).0
            != (#[trigger] after[b]).0 by {
            let x = back(a);
            let y = back(b);
            assert(after[a] == entries[x] && after[b] == entries[y]);
            if x < y {
                assert(entries[x].0 != entries[y].0);
            } else {
                assert(entries[y].0 != entries[x].0);
            }
        }
        if holds(entries, other) {
            let j = slot(entries, other);
            let n = if j == i { 0 } else if j < i { j + 1 } else { j };
            assert(after[n] == entries[j]);
            lemma_slot_unique(after, other, n);
            lemma_slot_unique(entries, other, j);
        } else if holds(after, other) {
            let n = slot(after, other);
            assert(after[n] == entries[back(n)]);
            assert(false);
        }
    }
}

/// Putting a value under a key keeps the table well formed and makes the key
/// give that value, in front of all others.
pub proof fn lemma_stored(entries: Seq<Entry>, limit: nat, key: Seq<char>, value: ValueView)
    requires
        table_ok(entries, limit),
    ensures
        table_ok(stored(entries, limit, key, value), limit),
        stored(entries, limit, key, value)[0] == (key, value),
        found(stored(entries, limit, key, value), key) == Some(value),
{
    let after = stored(entries, limit, key, value);
    assert forall|a: int, b: int| 0 <= a < b < after.len() implies (#[trigger] after[a]).0
        != (#[trigger] after[b]).0 by {
        lemma_tail_of_stored(entries, limit, key, value, b - 1);
        if a > 0 {
            lemma_tail_order(entries, limit, key, value, a - 1, b - 1);
        }
    }
    lemma_slot_unique(after, key, 0);
}

/// The place in the old table of the entry that stands behind the new one
/// at place `n`.
spec fn origin(entries: Seq<Entry>, key: Seq<char>, n: int) -> int {
    if holds(entries, key) && n >= slot(entries, key) {
        n + 1
    } else {
        n
    }
}

proof fn lemma_tail_of_stored(
    entries: Seq<Entry>,
    limit: nat,
    key: Seq<char>,
    value: ValueView,
    n: int,
)
    requires
        table_ok(entries, limit),
        0 <= n < stored(entries, limit, key, value).len() - 1,
    ensures
        0 <= origin(entries, key, n) < entries.len(),
        stored(entries, limit, key, value)[n + 1] == entries[origin(entries, key, n)],
        entries[origin(entries, key, n)].0 != key,
{
    let m = origin(entries, key, n);
    if holds(entries, key) {
        let i = slot(entries, key);
        if m < i {
            assert(entries[m].0 != entries[i].0);
        } else {
            assert(entries[i].0 != entries[m].0);
        }
    }
}

proof fn lemma_tail_order(
    entries: Seq<Entry>,
    limit: nat,
    key: Seq<char>,
    value: ValueView,
    a: int,
    b: int,
)
    requires
        table_ok(entries, limit),
        0 <= a < b < stored(entries, limit, key, value).len() - 1,
    ensures
        stored(entries, limit, key, value)[a + 1].0 != stored(entries, limit, key, value)[b + 1].0,
{
    lemma_tail_of_stored(entries, limit, key, value, a);
    lemma_tail_of_stored(entries, limit, key, value, b);
    let x = origin(entries, key, a);
    let y = origin(entries, key, b);
    assert(x < y);
    assert(entries[x].0 != entries[y].0);
}

/// Putting a value under a key leaves the values of the other keys alone,
/// but for the one key that is dropped to make room: the key used least
/// recently, when the table is full and the new key has no entry yet.
pub proof fn lemma_stored_others(
    entries: Seq<Entry>,
    limit: nat,
    key: Seq<char>,
    value: ValueView,
    other: Seq<char>,
)
    requires
        table_ok(entries, limit),
        other != key,
    ensures
        found(stored(entries, limit, key, value), other) == if !holds(entries, key) && entries.len()
            == limit && entries.last().0 == other {
            None
        } else {
            found(entries, other)
        },
{
    let after = stored(entries, limit, key, value);
    lemma_stored(entries, limit, key, value);
    let evicts = !holds(entries, key) && entries.len() == limit;
    if holds(after, other) {
        let n = slot(after, other);
        assert(n != 0);
        lemma_tail_of_stored(entries, limit, key, value, n - 1);
        let m = origin(entries, key, n - 1);
        lemma_slot_unique(entries, other, m);
        lemma_slot_unique(after, other, n);
        if evicts && entries.last().0 == other {
            assert(entries[m].0 != entries[entries.len() - 1].0);
        }
    } else if holds(entries, other) {
        let m = slot(entries, other);
        if evicts && m == entries.len() - 1 {
        } else {
            let n = if holds(entries, key) && m > slot(entries, key) { m - 1 } else { m };
            lemma_tail_of_stored(entries, limit, key, value, n);
            assert(after[n + 1].0 == other);
            assert(false);
        }
    }
}

/// A table of well-formed values stays one when a key is used and when a
/// well-formed value is put into it, and gives only well-formed values.
pub proof fn lemma_values_stay_well_formed(
    entries: Seq<Entry>,
    limit: nat,
    key: Seq<char>,
    value: ValueView,
)
    requires
        table_ok(entries, limit),
        values_well_formed(entries),
    ensures
        values_well_formed(touched(entries, key)),
        value.well_formed() ==> values_well_formed(stored(entries, limit, key, value)),
        found(entries, key) matches Some(held) ==> held.well_formed(),
{
    if holds(entries, key) {
        let i = slot(entries, key);
        let after = touched(entries, key);
        assert forall|n: int| 0 <= n < after.len() implies (#[trigger] after[n]).1.well_formed() by {
            let m = if n == 0 { i } else if n <= i { n - 1 } else { n };
            assert(after[n] == entries[m]);
        }
    }
    if value.well_formed() {
        let after = stored(entries, limit, key, value);
        assert forall|n: int| 0 <= n < after.len() implies (#[trigger] after[n]).1.well_formed() by {
            if n > 0 {
                lemma_tail_of_stored(entries, limit, key, value, n - 1);
            }
        }
    }
}

/// Of two values put under one key, the second is the one that stays.
pub proof fn lemma_last_write_wins(
    entries: Seq<Entry>,
    limit: nat,
    key: Seq<char>,
    first: ValueView,
    second: ValueView,
)
    requires
        table_ok(entries, limit),
    ensures
        found(stored(stored(entries, limit, key, first), limit, key, second), key) == Some(second),
        stored(stored(entries, limit, key, first), limit, key, second).len() == stored(
            entries,
            limit,
            key,
            first,
        ).len(),
{
    lemma_stored(entries, limit, key, first);
    lemma_stored(stored(entries, limit, key, first), limit, key, second);
    lemma_slot_unique(stored(entries, limit, key, first), key, 0);
}

/// The number of entries that a cache holds unless it is made otherwise.
pub const DEFAULT_LIMIT: u16 = 100;

/// The cache table: the hot tier, and the name of the directory under which
/// the cold tier keeps its files.
pub struct Cache {
    disk_cache_dir: String,
    lru: lru::LruCache<String, Value>,
}

impl Cache {
    #[verifier::type_invariant]
    spec fn well_formed(self) -> bool {
        table_ok(lru_entries(self.lru), lru_limit(self.lru)) && values_well_formed(
            lru_entries(self.lru),
        )
    }

    /// The entries of the hot tier, from the one used most recently to the
    /// one used least recently.
    pub closed spec fn entries(&self) -> Seq<Entry> {
        lru_entries(self.lru)
    }

    /// The number of entries that the hot tier holds at most.
    pub closed spec fn limit(&self) -> nat {
        lru_limit(self.lru)
    }

    /// The directory of the cold tier, as given when the cache was made.
    pub closed spec fn dir(&self) -> Seq<char> {
        self.disk_cache_dir@
    }

    /// An empty cache with room for a hundred entries.
    pub fn new(disk_cache_dir: String) -> (cache: Cache)
        ensures
            cache.entries() == Seq::<Entry>::empty(),
            cache.limit() == DEFAULT_LIMIT,
            cache.dir() == disk_cache_dir@,
    {
        Cache { disk_cache_dir, lru: lru_new(DEFAULT_LIMIT) }
    }

    /// An empty cache with room for `limit` entries. There is none without
    /// room for an entry.
    pub fn with_limit(disk_cache_dir: String, limit: u16) -> (cache: Option<Cache>)
        ensures
            cache is Some <==> limit > 0,
            cache matches Some(c) ==> c.entries() == Seq::<Entry>::empty() && c.limit() == limit
                && c.dir() == disk_cache_dir@,
    {
        if limit == 0 {
            None
        } else {
            Some(Cache { disk_cache_dir, lru: lru_new(limit) })
        }
    }

    pub fn disk_cache_dir(&self) -> (dir: &str)
        ensures
            dir@ == self.dir(),
    {
        self.disk_cache_dir.as_str()
    }

    /// Whether the hot tier has the key. This is no use of the key.
    pub fn contains(&self, key: &str) -> (present: bool)
        ensures
            present == holds(self.entries(), key@),
            table_ok(self.entries(), self.limit()),
            values_well_formed(self.entries()),
    {
        proof {
            use_type_invariant(self);
        }
        lru_contains(&self.lru, key)
    }

    /// Looks the key up in the hot tier, which counts as a use of the key.
    /// What it finds is well formed, as every value in the hot tier is.
    pub fn lookup(&mut self, key: &str) -> (value: Option<&Value>)
        ensures
            ref_view(value) == found(old(self).entries(), key@),
            value matches Some(held) ==> held@.well_formed(),
            final(self).entries() == touched(old(self).entries(), key@),
            final(self).limit() == old(self).limit(),
            final(self).dir() == old(self).dir(),
            table_ok(final(self).entries(), final(self).limit()),
            values_well_formed(final(self).entries()),
    {
        proof {
            use_type_invariant(&*self);
            lemma_touched(self.entries(), self.limit(), key@, key@);
            lemma_values_stay_well_formed(
                self.entries(),
                self.limit(),
                key@,
                ValueView::ClientId(Seq::empty()),
            );
        }
        lru_get(&mut self.lru, key)
    }

    /// Puts the value under the key in the hot tier, in place of the value
    /// that the key had, and hands the stored value out. Where the key is
    /// new and the tier is full, the entry used least recently makes room.
    /// The value is a well-formed one (`Value::is_well_formed` tells): the
    /// hot tier holds no emote set with a name twice.
    pub fn insert(&mut self, key: String, value: Value) -> (stored_value: &Value)
        requires
            value@.well_formed(),
        ensures
            stored_value@ == value@,
            final(self).entries() == stored(old(self).entries(), old(self).limit(), key@, value@),
            final(self).limit() == old(self).limit(),
            final(self).dir() == old(self).dir(),
            table_ok(final(self).entries(), final(self).limit()),
            values_well_formed(final(self).entries()),
    {
        let ghost before = self.entries();
        let ghost after = stored(before, self.limit(), key@, value@);
        proof {
            use_type_invariant(&*self);
            lemma_stored(before, self.limit(), key@, value@);
            lemma_values_stay_well_formed(before, self.limit(), key@, value@);
            lemma_values_stay_well_formed(after, self.limit(), key@, value@);
            lemma_touched(after, self.limit(), key@, key@);
            assert(touched(after, key@) =~= after) by {
                lemma_slot_unique(after, key@, 0);
                assert(after.remove(0) =~= after.skip(1));
            }
        }
        let lookup_key = key.clone();
        lru_put(&mut self.lru, key, value);
        match lru_get(&mut self.lru, lookup_key.as_str()) {
            Some(stored_value) => stored_value,
            None => unreached(),
        }
    }
}

} // verus!
