//! The shared in-process cache: a map from stock symbol to record snapshot,
//! and a time-to-live result cache for derived computations.
//!
//! Callers obtain copies, never long-lived references, so no lock is held
//! across an external call; the locking itself sits outside the core, around
//! whole values of these types. TTL entries expire lazily on read, and
//! `clear_all` invalidates everything at once after a dependent pipeline has
//! completed.

use vstd::prelude::*;

verus! {

/// A slowly-changing per-stock snapshot. Delisting is a flag, not a removal.
pub struct StockRecord {
    pub stock_symbol: String,
    pub name: String,
    pub suspend_listing: bool,
}

impl StockRecord {
    /// What a record says, as plain values.
    pub open spec fn model(self) -> (Seq<char>, Seq<char>, bool) {
        (self.stock_symbol@, self.name@, self.suspend_listing)
    }

    /// A field-for-field copy.
    pub fn duplicate(&self) -> (r: StockRecord)
        ensures
            r.model() == self.model(),
    {
        StockRecord {
            stock_symbol: self.stock_symbol.clone(),
            name: self.name.clone(),
            suspend_listing: self.suspend_listing,
        }
    }
}

/// The shared map from stock symbol to record snapshot. Owned exclusively by
/// one place in the process; jobs read copies out and write computed deltas
/// back in bulk.
pub struct SharedCache {
    pub records: Vec<StockRecord>,
}

impl SharedCache {
    /// Symbols are unique: the vector is a map keyed by symbol.
    pub open spec fn wf(self) -> bool {
        forall|i: int, j: int|
            0 <= i < j < self.records@.len() ==> (#[trigger] self.records@[i]).stock_symbol@ != (
            #[trigger] self.records@[j]).stock_symbol@
    }

    /// The map this cache holds: symbol to (name, suspended flag).
    pub open spec fn view_map(self) -> Map<Seq<char>, (Seq<char>, bool)> {
        Map::new(
            |sym: Seq<char>|
                exists|i: int|
                    0 <= i < self.records@.len() && (#[trigger] self.records@[i]).stock_symbol@
                        == sym,
            |sym: Seq<char>|
                {
                    let i = choose|i: int|
                        0 <= i < self.records@.len() && (#[trigger] self.records@[i]).stock_symbol@
                            == sym;
                    (self.records@[i].name@, self.records@[i].suspend_listing)
                },
        )
    }

    /// An empty cache.
    pub fn new() -> (r: SharedCache)
        ensures
            r.wf(),
            r.view_map() == Map::<Seq<char>, (Seq<char>, bool)>::empty(),
    {
        let r = SharedCache { records: Vec::new() };
        proof {
            assert(r.view_map() =~= Map::<Seq<char>, (Seq<char>, bool)>::empty());
        }
        r
    }

    /// Index of the record holding `symbol`, if any.
    fn position_of(&self, symbol: &String) -> (r: Option<usize>)
        ensures
            r matches Some(i) ==> i < self.records@.len() && self.records@[i as int].stock_symbol@
                == symbol@,
            r is None ==> forall|i: int|
                0 <= i < self.records@.len() ==> (#[trigger] self.records@[i]).stock_symbol@
                    != symbol@,
    {
        let n = self.records.len();
        let mut i: usize = 0;
        while i < n
            invariant
                n == self.records@.len(),
                0 <= i <= n,
                forall|j: int|
                    0 <= j < i ==> (#[trigger] self.records@[j]).stock_symbol@ != symbol@,
            decreases n - i,
        {
            if symbol.eq(&self.records[i].stock_symbol) {
                return Some(i);
            }
            i = i + 1;
        }
        None
    }

    /// Copy-out read of one record.
    pub fn get_snapshot(&self, symbol: &String) -> (r: Option<StockRecord>)
        requires
            self.wf(),
        ensures
            r matches Some(rec) ==> self.view_map().dom().contains(symbol@) && rec.stock_symbol@
                == symbol@ && (rec.name@, rec.suspend_listing) == self.view_map()[symbol@],
            r is None <==> !self.view_map().dom().contains(symbol@),
    {
        match self.position_of(symbol) {
            Some(i) => {
                let rec = self.records[i].duplicate();
                proof {
                    let k = choose|k: int|
                        0 <= k < self.records@.len() && (#[trigger] self.records@[k]).stock_symbol@
                            == symbol@;
                    assert(k == i);
                }
                Some(rec)
            },
            None => None,
        }
    }

    /// Copy-out bulk read of every record.
    pub fn read_all(&self) -> (r: Vec<StockRecord>)
        ensures
            r@.len() == self.records@.len(),
            forall|i: int|
                0 <= i < r@.len() ==> (#[trigger] r@[i]).model() == self.records@[i].model(),
    {
        let n = self.records.len();
        let mut out: Vec<StockRecord> = Vec::new();
        let mut i: usize = 0;
        while i < n
            invariant
                n == self.records@.len(),
                0 <= i <= n,
                out@.len() == i,
                forall|j: int|
                    0 <= j < i ==> (#[trigger] out@[j]).model() == self.records@[j].model(),
            decreases n - i,
        {
            let rec = self.records[i].duplicate();
            out.push(rec);
            i = i + 1;
        }
        out
    }

    /// Bulk replace-by-identity write: each update replaces the record with
    /// its symbol, or is added if the symbol is new. The delta is computed
    /// outside any lock; only this application needs exclusivity.
    pub fn apply_updates(&mut self, updates: Vec<StockRecord>)
        requires
            old(self).wf(),
        ensures
            final(self).wf(),
            final(self).view_map() == old(self).view_map().union_prefer_right(
                Map::new(
                    |sym: Seq<char>|
                        exists|i: int|
                            0 <= i < updates@.len() && (#[trigger] updates@[i]).stock_symbol@
                                == sym,
                    |sym: Seq<char>|
                        {
                            let i = last_index_with_symbol(updates@, sym);
                            (updates@[i].name@, updates@[i].suspend_listing)
                        },
                ),
            ),
    {
        let n = updates.len();
        let mut k: usize = 0;
        let updates = updates;
        proof {
            assert(update_map(updates@.subrange(0, 0)) =~= Map::<
                Seq<char>,
                (Seq<char>, bool),
            >::empty());
            assert(self.view_map() =~= self.view_map().union_prefer_right(
                update_map(updates@.subrange(0, 0)),
            ));
        }
        while k < n
            invariant
                n == updates@.len(),
                0 <= k <= n,
                self.wf(),
                self.view_map() == old(self).view_map().union_prefer_right(
                    update_map(updates@.subrange(0, k as int)),
                ),
            decreases n - k,
        {
            let ghost pre_map = self.view_map();
            let rec = updates[k].duplicate();
            let ghost rec_ghost = rec;
            self.put_one(rec);
            proof {
                let prefix = updates@.subrange(0, k as int);
                let prefix1 = updates@.subrange(0, k + 1int);
                assert(prefix1.drop_last() =~= prefix);
                assert(prefix1 =~= prefix.push(updates@[k as int]));
                lemma_update_map_push(prefix, updates@[k as int], rec_ghost);
                vstd::map_lib::lemma_union_insert_right(
                    old(self).view_map(),
                    update_map(prefix),
                    rec_ghost.stock_symbol@,
                    (rec_ghost.name@, rec_ghost.suspend_listing),
                );
                assert(self.view_map() =~= old(self).view_map().union_prefer_right(
                    update_map(prefix1),
                ));
            }
            k = k + 1;
        }
        proof {
            assert(updates@.subrange(0, n as int) =~= updates@);
        }
    }

    /// Insert or replace one record by its symbol.
    fn put_one(&mut self, rec: StockRecord)
        requires
            old(self).wf(),
        ensures
            final(self).wf(),
            final(self).view_map() == old(self).view_map().insert(
                rec.stock_symbol@,
                (rec.name@, rec.suspend_listing),
            ),
    {
        let pos = self.position_of(&rec.stock_symbol);
        let ghost pre = *self;
        let ghost rec_ghost = rec;
        match pos {
            Some(i) => {
                self.records.set(i, rec);
                proof {
                    assert forall|sym: Seq<char>|
                        #![all_triggers]
                        true implies (self.view_map().dom().contains(sym) == pre.view_map().insert(
                        rec_ghost.stock_symbol@,
                        (rec_ghost.name@, rec_ghost.suspend_listing),
                    ).dom().contains(sym) && (self.view_map().dom().contains(sym)
                        ==> self.view_map()[sym] == pre.view_map().insert(
                        rec_ghost.stock_symbol@,
                        (rec_ghost.name@, rec_ghost.suspend_listing),
                    )[sym])) by {
                        if self.view_map().dom().contains(sym) {
                            let j = choose|j: int|
                                0 <= j < self.records@.len() && (
                                #[trigger] self.records@[j]).stock_symbol@ == sym;
                            if sym == rec_ghost.stock_symbol@ {
                                assert(j == i);
                            } else {
                                assert(pre.records@[j].stock_symbol@ == sym);
                            }
                        }
                        if pre.view_map().dom().contains(sym) && sym != rec_ghost.stock_symbol@ {
                            let j = choose|j: int|
                                0 <= j < pre.records@.len() && (
                                #[trigger] pre.records@[j]).stock_symbol@ == sym;
                            assert(self.records@[j].stock_symbol@ == sym);
                        }
                        if sym == rec_ghost.stock_symbol@ {
                            assert(self.records@[i as int].stock_symbol@ == sym);
                        }
                    }
                    assert(self.view_map() =~= pre.view_map().insert(
                        rec_ghost.stock_symbol@,
                        (rec_ghost.name@, rec_ghost.suspend_listing),
                    ));
                }
            },
            None => {
                self.records.push(rec);
                proof {
                    assert forall|sym: Seq<char>|
                        #![all_triggers]
                        true implies (self.view_map().dom().contains(sym) == pre.view_map().insert(
                        rec_ghost.stock_symbol@,
                        (rec_ghost.name@, rec_ghost.suspend_listing),
                    ).dom().contains(sym) && (self.view_map().dom().contains(sym)
                        ==> self.view_map()[sym] == pre.view_map().insert(
                        rec_ghost.stock_symbol@,
                        (rec_ghost.name@, rec_ghost.suspend_listing),
                    )[sym])) by {
                        let len = pre.records@.len();
                        if self.view_map().dom().contains(sym) {
                            let j = choose|j: int|
                                0 <= j < self.records@.len() && (
                                #[trigger] self.records@[j]).stock_symbol@ == sym;
                            if j < len {
                                assert(pre.records@[j].stock_symbol@ == sym);
                            } else {
                                assert(sym == rec_ghost.stock_symbol@);
                            }
                        }
                        if pre.view_map().dom().contains(sym) {
                            let j = choose|j: int|
                                0 <= j < pre.records@.len() && (
                                #[trigger] pre.records@[j]).stock_symbol@ == sym;
                            assert(self.records@[j].stock_symbol@ == sym);
                        }
                        if sym == rec_ghost.stock_symbol@ {
                            assert(self.records@[len as int].stock_symbol@ == sym);
                        }
                    }
                    assert(self.view_map() =~= pre.view_map().insert(
                        rec_ghost.stock_symbol@,
                        (rec_ghost.name@, rec_ghost.suspend_listing),
                    ));
                }
            },
        }
    }
}

/// `i` is the index of the last record in `s` carrying `sym`.
pub open spec fn is_last_index(s: Seq<StockRecord>, sym: Seq<char>, i: int) -> bool {
    0 <= i < s.len() && s[i].stock_symbol@ == sym && forall|j: int|
        i < j < s.len() ==> (#[trigger] s[j]).stock_symbol@ != sym
}

/// Index of the last record in `s` carrying `sym`.
pub open spec fn last_index_with_symbol(s: Seq<StockRecord>, sym: Seq<char>) -> int {
    choose|i: int| is_last_index(s, sym, i)
}

/// The map a sequence of updates writes: the last update per symbol wins.
pub open spec fn update_map(s: Seq<StockRecord>) -> Map<Seq<char>, (Seq<char>, bool)> {
    Map::new(
        |sym: Seq<char>|
            exists|i: int| 0 <= i < s.len() && (#[trigger] s[i]).stock_symbol@ == sym,
        |sym: Seq<char>|
            {
                let i = last_index_with_symbol(s, sym);
                (s[i].name@, s[i].suspend_listing)
            },
    )
}

/// One entry of the TTL result cache: the computed value, opaque to the
/// cache, and the time it was inserted.
pub struct TtlEntry<V> {
    pub value: V,
    pub inserted_at: i64,
}

/// The time-to-live result cache for derived computations. Entries expire
/// lazily on read; `clear_all` drops everything at once.
pub struct TtlCache<V> {
    pub entries: Vec<(String, TtlEntry<V>)>,
}

/// An entry inserted at `inserted_at` is still fresh at `now` under `ttl`:
/// its time to live has not elapsed.
pub open spec fn spec_fresh(inserted_at: i64, ttl: i64, now: i64) -> bool {
    now <= inserted_at + ttl
}

impl<V> TtlCache<V> {
    /// Keys are unique and insertion times are epoch seconds.
    pub open spec fn wf(self) -> bool {
        (forall|i: int, j: int|
            0 <= i < j < self.entries@.len() ==> (#[trigger] self.entries@[i]).0@ != (
            #[trigger] self.entries@[j]).0@) && (forall|i: int|
            0 <= i < self.entries@.len() ==> (#[trigger] self.entries@[i]).1.inserted_at >= 0)
    }

    /// The map this cache holds: key to (value, insertion time).
    pub open spec fn view_map(self) -> Map<Seq<char>, (V, i64)> {
        Map::new(
            |key: Seq<char>|
                exists|i: int| 0 <= i < self.entries@.len() && (#[trigger] self.entries@[i]).0@ == key,
            |key: Seq<char>|
                {
                    let i = choose|i: int|
                        0 <= i < self.entries@.len() && (#[trigger] self.entries@[i]).0@ == key;
                    (self.entries@[i].1.value, self.entries@[i].1.inserted_at)
                },
        )
    }

    /// A read of `key` under `ttl` at time `now` hits: the key is present
    /// and its entry is still fresh.
    pub open spec fn spec_hit(self, key: Seq<char>, ttl: i64, now: i64) -> bool {
        self.view_map().dom().contains(key) && spec_fresh(self.view_map()[key].1, ttl, now)
    }

    /// An empty cache.
    pub fn new() -> (r: TtlCache<V>)
        ensures
            r.wf(),
            r.view_map() == Map::<Seq<char>, (V, i64)>::empty(),
    {
        let r = TtlCache { entries: Vec::new() };
        proof {
            assert(r.view_map() =~= Map::<Seq<char>, (V, i64)>::empty());
        }
        r
    }

    /// Index of the entry holding `key`, if any.
    fn position_of(&self, key: &String) -> (r: Option<usize>)
        ensures
            r matches Some(i) ==> i < self.entries@.len() && self.entries@[i as int].0@ == key@,
            r is None ==> forall|i: int|
                0 <= i < self.entries@.len() ==> (#[trigger] self.entries@[i]).0@ != key@,
    {
        let n = self.entries.len();
        let mut i: usize = 0;
        while i < n
            invariant
                n == self.entries@.len(),
                0 <= i <= n,
                forall|j: int| 0 <= j < i ==> (#[trigger] self.entries@[j]).0@ != key@,
            decreases n - i,
        {
            if key.eq(&self.entries[i].0) {
                return Some(i);
            }
            i = i + 1;
        }
        None
    }

    /// Read `key` under `ttl` as of time `now`. An entry is never returned
    /// after its time to live has elapsed.
    pub fn get_at(&self, key: &String, ttl: i64, now: i64) -> (r: Option<&V>)
        requires
            self.wf(),
            ttl >= 0,
            now >= 0,
        ensures
            r is Some <==> self.spec_hit(key@, ttl, now),
            r matches Some(v) ==> *v == self.view_map()[key@].0,
    {
        match self.position_of(key) {
            Some(i) => {
                proof {
                    let k = choose|k: int|
                        0 <= k < self.entries@.len() && (#[trigger] self.entries@[k]).0@ == key@;
                    assert(k == i);
                }
                let inserted = self.entries[i].1.inserted_at;
                if now <= inserted || now - inserted <= ttl {
                    Some(&self.entries[i].1.value)
                } else {
                    None
                }
            },
            None => None,
        }
    }

    /// Insert `key` as of time `now`, replacing any previous entry.
    pub fn put_at(&mut self, key: String, value: V, now: i64)
        requires
            old(self).wf(),
            now >= 0,
        ensures
            final(self).wf(),
            final(self).view_map() == old(self).view_map().insert(key@, (value, now)),
    {
        let ghost key_view = key@;
        let ghost pre = *self;
        let pos = self.position_of(&key);
        let entry = TtlEntry { value, inserted_at: now };
        match pos {
            Some(i) => {
                self.entries.set(i, (key, entry));
                proof {
                    assert forall|k: Seq<char>|
                        #![all_triggers]
                        true implies (self.view_map().dom().contains(k) == pre.view_map().insert(
                        key_view,
                        (final(self).view_map()[key_view].0, now),
                    ).dom().contains(k)) by {
                        if self.view_map().dom().contains(k) {
                            let j = choose|j: int|
                                0 <= j < self.entries@.len() && (#[trigger] self.entries@[j]).0@
                                    == k;
                            if k != key_view {
                                assert(pre.entries@[j].0@ == k);
                            }
                        }
                        if pre.view_map().dom().contains(k) && k != key_view {
                            let j = choose|j: int|
                                0 <= j < pre.entries@.len() && (#[trigger] pre.entries@[j]).0@
                                    == k;
                            assert(self.entries@[j].0@ == k);
                        }
                        if k == key_view {
                            assert(self.entries@[i as int].0@ == k);
                        }
                    }
                    assert forall|k: Seq<char>| self.view_map().dom().contains(k) implies
                        #[trigger] self.view_map()[k] == pre.view_map().insert(
                        key_view,
                        (self.view_map()[key_view].0, now),
                    )[k] by {
                        let j = choose|j: int|
                            0 <= j < self.entries@.len() && (#[trigger] self.entries@[j]).0@ == k;
                        if k == key_view {
                            assert(j == i);
                        } else {
                            assert(pre.entries@[j].0@ == k);
                        }
                    }
                    assert(self.entries@[i as int].0@ == key_view);
                    let j0 = choose|j: int|
                        0 <= j < self.entries@.len() && (#[trigger] self.entries@[j]).0@
                            == key_view;
                    assert(j0 == i);
                    assert(self.view_map() =~= pre.view_map().insert(key_view, (entry.value, now)));
                }
            },
            None => {
                self.entries.push((key, entry));
                proof {
                    let len = pre.entries@.len();
                    assert forall|k: Seq<char>|
                        #![all_triggers]
                        true implies (self.view_map().dom().contains(k) == pre.view_map().insert(
                        key_view,
                        (final(self).view_map()[key_view].0, now),
                    ).dom().contains(k)) by {
                        if self.view_map().dom().contains(k) {
                            let j = choose|j: int|
                                0 <= j < self.entries@.len() && (#[trigger] self.entries@[j]).0@
                                    == k;
                            if j < len {
                                assert(pre.entries@[j].0@ == k);
                            } else {
                                assert(k == key_view);
                            }
                        }
                        if pre.view_map().dom().contains(k) {
                            let j = choose|j: int|
                                0 <= j < pre.entries@.len() && (#[trigger] pre.entries@[j]).0@
                                    == k;
                            assert(self.entries@[j].0@ == k);
                        }
                        if k == key_view {
                            assert(self.entries@[len as int].0@ == k);
                        }
                    }
                    assert forall|k: Seq<char>| self.view_map().dom().contains(k) implies
                        #[trigger] self.view_map()[k] == pre.view_map().insert(
                        key_view,
                        (self.view_map()[key_view].0, now),
                    )[k] by {
                        let j = choose|j: int|
                            0 <= j < self.entries@.len() && (#[trigger] self.entries@[j]).0@ == k;
                        if k == key_view {
                            assert(j == len);
                        } else {
                            assert(pre.entries@[j].0@ == k);
                        }
                    }
                    let j0 = choose|j: int|
                        0 <= j < self.entries@.len() && (#[trigger] self.entries@[j]).0@
                            == key_view;
                    assert(self.entries@[len as int].0@ == key_view);
                    assert(j0 == len);
                    assert(self.view_map() =~= pre.view_map().insert(key_view, (entry.value, now)));
                }
            },
        }
    }

    /// Invalidate every entry at once. Called after a full dependent
    /// pipeline completes, so the next read of any derived value
    /// recomputes it from freshly written data.
    pub fn clear_all(&mut self)
        ensures
            final(self).wf(),
            final(self).view_map() == Map::<Seq<char>, (V, i64)>::empty(),
    {
        self.entries.clear();
        proof {
            assert(self.view_map() =~= Map::<Seq<char>, (V, i64)>::empty());
        }
    }

    /// Read `key` under `ttl` as of the wall clock. Whatever the clock says,
    /// an absent key misses, and a hit returns the stored value unchanged.
    pub fn get_or_none(&self, key: &String, ttl: i64) -> (r: Option<&V>)
        requires
            self.wf(),
            ttl >= 0,
        ensures
            r matches Some(v) ==> self.view_map().dom().contains(key@) && *v
                == self.view_map()[key@].0,
            !self.view_map().dom().contains(key@) ==> r is None,
    {
        let t = crate::dates::now_unix_seconds();
        let now = if t < 0 {
            0
        } else {
            t
        };
        self.get_at(key, ttl, now)
    }

    /// Insert `key` as of the wall clock.
    pub fn put(&mut self, key: String, value: V)
        requires
            old(self).wf(),
        ensures
            final(self).wf(),
            exists|t: i64|
                final(self).view_map() == old(self).view_map().insert(key@, (value, t)),
    {
        let t = crate::dates::now_unix_seconds();
        let now = if t < 0 {
            0
        } else {
            t
        };
        self.put_at(key, value, now);
    }
}

/// Cache invalidation: after `clear_all`, a read of any previously cached
/// key misses, regardless of remaining time to live.
pub proof fn lemma_clear_all_invalidates<V>(c: TtlCache<V>, key: Seq<char>, ttl: i64, now: i64)
    requires
        c.view_map() == Map::<Seq<char>, (V, i64)>::empty(),
    ensures
        !c.spec_hit(key, ttl, now),
{
}

/// Time-to-live expiry: a value inserted at `t0` is returned unchanged by
/// any read not later than `t0 + ttl`, and never by a read after `t0 + ttl`.
pub proof fn lemma_ttl_expiry<V>(
    before: TtlCache<V>,
    after: TtlCache<V>,
    key: Seq<char>,
    value: V,
    t0: i64,
    ttl: i64,
    t: i64,
)
    requires
        after.view_map() == before.view_map().insert(key, (value, t0)),
    ensures
        t <= t0 + ttl ==> after.spec_hit(key, ttl, t) && after.view_map()[key].0 == value,
        t > t0 + ttl ==> !after.spec_hit(key, ttl, t),
{
}

proof fn lemma_last_index_exists(s: Seq<StockRecord>, sym: Seq<char>)
    requires
        exists|i: int| 0 <= i < s.len() && (#[trigger] s[i]).stock_symbol@ == sym,
    ensures
        is_last_index(s, sym, last_index_with_symbol(s, sym)),
    decreases s.len(),
{
    let last = s.len() - 1;
    if s[last].stock_symbol@ == sym {
        assert(is_last_index(s, sym, last));
    } else {
        let w = choose|i: int| 0 <= i < s.len() && (#[trigger] s[i]).stock_symbol@ == sym;
        assert(s.drop_last()[w] == s[w]);
        lemma_last_index_exists(s.drop_last(), sym);
        let i = last_index_with_symbol(s.drop_last(), sym);
        assert(s.drop_last()[i] == s[i]);
        assert forall|j: int| i < j < s.len() implies (#[trigger] s[j]).stock_symbol@ != sym by {
            if j < s.len() - 1 {
                assert(s.drop_last()[j] == s[j]);
                assert(s.drop_last()[j].stock_symbol@ != sym);
            }
        }
        assert(is_last_index(s, sym, i));
    }
    assert(exists|i: int| is_last_index(s, sym, i));
}

proof fn lemma_update_map_push(prefix: Seq<StockRecord>, next: StockRecord, copy: StockRecord)
    requires
        copy.model() == next.model(),
    ensures
        update_map(prefix.push(next)) == update_map(prefix).insert(
            copy.stock_symbol@,
            (copy.name@, copy.suspend_listing),
        ),
{
    let whole = prefix.push(next);
    let lhs = update_map(whole);
    let rhs = update_map(prefix).insert(copy.stock_symbol@, (copy.name@, copy.suspend_listing));
    assert forall|sym: Seq<char>|
        #![all_triggers]
        true implies (lhs.dom().contains(sym) == rhs.dom().contains(sym) && (lhs.dom().contains(
        sym,
    ) ==> lhs[sym] == rhs[sym])) by {
        assert(whole[whole.len() - 1] == next);
        assert(forall|j: int| 0 <= j < prefix.len() ==> #[trigger] whole[j] == prefix[j]);
        if lhs.dom().contains(sym) {
            lemma_last_index_exists(whole, sym);
            let i = last_index_with_symbol(whole, sym);
            if sym == copy.stock_symbol@ {
                assert(i == whole.len() - 1);
            } else {
                assert(i < whole.len() - 1);
                assert(prefix[i].stock_symbol@ == sym);
                lemma_last_index_exists(prefix, sym);
                let ip = last_index_with_symbol(prefix, sym);
                assert(whole[ip] == prefix[ip]);
                assert(ip == i);
            }
        }
        if rhs.dom().contains(sym) && sym != copy.stock_symbol@ {
            let w = choose|i: int|
                0 <= i < prefix.len() && (#[trigger] prefix[i]).stock_symbol@ == sym;
            assert(whole[w] == prefix[w]);
        }
        if sym == copy.stock_symbol@ {
            assert(whole[whole.len() - 1].stock_symbol@ == sym);
        }
    }
    assert(lhs =~= rhs);
}

} // verus!
