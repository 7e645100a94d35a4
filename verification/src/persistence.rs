//! The persistence gateway contract, modelled: an upsert keyed by the
//! record's natural key, with replace-on-conflict semantics, and the
//! candidate-selection reads the reconciliation pipelines run. The store
//! behind the real gateway enforces the same key; this model is what the
//! pipeline's correctness is proved against.

use vstd::prelude::*;

use crate::dividend::{DividendModel, DividendRecord};

verus! {

/// What a write reports: how many rows it touched.
#[derive(Clone, Copy, PartialEq, Eq, Structural, Debug)]
pub struct WriteOutcome {
    pub rows_affected: u64,
}

/// Dividend rows keyed by (security code, year, quarter): a natural-key
/// store with replace-on-conflict writes and no duplicate rows.
pub struct DividendStore {
    pub records: Vec<DividendRecord>,
}

impl DividendStore {
    /// No two rows share a natural key.
    pub open spec fn wf(self) -> bool {
        forall|i: int, j: int|
            0 <= i < j < self.records@.len() ==> (#[trigger] self.records@[i]).key() != (
            #[trigger] self.records@[j]).key()
    }

    /// The map this store holds: natural key to record values.
    pub open spec fn view_map(self) -> Map<(Seq<char>, int, Seq<char>), DividendModel> {
        Map::new(
            |k: (Seq<char>, int, Seq<char>)|
                exists|i: int| 0 <= i < self.records@.len() && (#[trigger] self.records@[i]).key() == k,
            |k: (Seq<char>, int, Seq<char>)|
                {
                    let i = choose|i: int|
                        0 <= i < self.records@.len() && (#[trigger] self.records@[i]).key() == k;
                    self.records@[i].model()
                },
        )
    }

    /// An empty store.
    pub fn new() -> (r: DividendStore)
        ensures
            r.wf(),
            r.view_map() == Map::<(Seq<char>, int, Seq<char>), DividendModel>::empty(),
    {
        let r = DividendStore { records: Vec::new() };
        proof {
            assert(r.view_map() =~= Map::<(Seq<char>, int, Seq<char>), DividendModel>::empty());
        }
        r
    }

    /// Index of the row carrying `rec`'s natural key, if any.
    fn position_of(&self, rec: &DividendRecord) -> (r: Option<usize>)
        ensures
            r matches Some(i) ==> i < self.records@.len() && self.records@[i as int].key()
                == rec.key(),
            r is None ==> forall|i: int|
                0 <= i < self.records@.len() ==> (#[trigger] self.records@[i]).key() != rec.key(),
    {
        let n = self.records.len();
        let mut i: usize = 0;
        while i < n
            invariant
                n == self.records@.len(),
                0 <= i <= n,
                forall|j: int| 0 <= j < i ==> (#[trigger] self.records@[j]).key() != rec.key(),
            decreases n - i,
        {
            if crate::dividend::same_identity(&self.records[i], rec) {
                return Some(i);
            }
            i = i + 1;
        }
        None
    }

    /// Insert-or-update keyed by the natural key: a conflict overwrites all
    /// non-key columns with the latest fetched values, never inserting a
    /// duplicate row. Exactly one row is affected.
    pub fn upsert(&mut self, rec: DividendRecord) -> (r: WriteOutcome)
        requires
            old(self).wf(),
        ensures
            final(self).wf(),
            final(self).view_map() == old(self).view_map().insert(rec.key(), rec.model()),
            r.rows_affected == 1,
    {
        let ghost pre = *self;
        let ghost rec_ghost = rec;
        let pos = self.position_of(&rec);
        match pos {
            Some(i) => {
                self.records.set(i, rec);
                proof {
                    assert forall|k: (Seq<char>, int, Seq<char>)|
                        #![all_triggers]
                        true implies (self.view_map().dom().contains(k) == pre.view_map().insert(
                        rec_ghost.key(),
                        rec_ghost.model(),
                    ).dom().contains(k) && (self.view_map().dom().contains(k)
                        ==> self.view_map()[k] == pre.view_map().insert(
                        rec_ghost.key(),
                        rec_ghost.model(),
                    )[k])) by {
                        if self.view_map().dom().contains(k) {
                            let j = choose|j: int|
                                0 <= j < self.records@.len() && (#[trigger] self.records@[j]).key()
                                    == k;
                            if k == rec_ghost.key() {
                                assert(j == i);
                            } else {
                                assert(pre.records@[j].key() == k);
                            }
                        }
                        if pre.view_map().dom().contains(k) && k != rec_ghost.key() {
                            let j = choose|j: int|
                                0 <= j < pre.records@.len() && (#[trigger] pre.records@[j]).key()
                                    == k;
                            assert(self.records@[j].key() == k);
                        }
                        if k == rec_ghost.key() {
                            assert(self.records@[i as int].key() == k);
                        }
                    }
                    assert(self.view_map() =~= pre.view_map().insert(
                        rec_ghost.key(),
                        rec_ghost.model(),
                    ));
                }
            },
            None => {
                self.records.push(rec);
                proof {
                    let len = pre.records@.len();
                    assert forall|k: (Seq<char>, int, Seq<char>)|
                        #![all_triggers]
                        true implies (self.view_map().dom().contains(k) == pre.view_map().insert(
                        rec_ghost.key(),
                        rec_ghost.model(),
                    ).dom().contains(k) && (self.view_map().dom().contains(k)
                        ==> self.view_map()[k] == pre.view_map().insert(
                        rec_ghost.key(),
                        rec_ghost.model(),
                    )[k])) by {
                        if self.view_map().dom().contains(k) {
                            let j = choose|j: int|
                                0 <= j < self.records@.len() && (#[trigger] self.records@[j]).key()
                                    == k;
                            if j < len {
                                assert(pre.records@[j].key() == k);
                            } else {
                                assert(k == rec_ghost.key());
                            }
                        }
                        if pre.view_map().dom().contains(k) {
                            let j = choose|j: int|
                                0 <= j < pre.records@.len() && (#[trigger] pre.records@[j]).key()
                                    == k;
                            assert(self.records@[j].key() == k);
                        }
                        if k == rec_ghost.key() {
                            assert(self.records@[len as int].key() == k);
                        }
                    }
                    assert(self.view_map() =~= pre.view_map().insert(
                        rec_ghost.key(),
                        rec_ghost.model(),
                    ));
                }
            },
        }
        WriteOutcome { rows_affected: 1 }
    }

    /// The stored records of `year` whose ex-dividend dates are still both
    /// unset: the candidates of the unannounced-date workflow.
    pub fn candidates_unannounced(&self, year: i32) -> (r: Vec<DividendRecord>)
        ensures
            crate::dividend::models(r@) == crate::dividend::models(self.records@).filter(
                |m: DividendModel|
                    m.year == year && m.ex_dividend_date1.len() == 0 && m.ex_dividend_date2.len()
                        == 0,
            ),
    {
        let n = self.records.len();
        let mut out: Vec<DividendRecord> = Vec::new();
        proof {
            reveal(Seq::filter);
            assert(crate::dividend::models(self.records@.subrange(0, 0)) =~= Seq::<
                DividendModel,
            >::empty());
            assert(crate::dividend::models(out@) =~= Seq::<DividendModel>::empty().filter(
                |m: DividendModel|
                    m.year == year && m.ex_dividend_date1.len() == 0 && m.ex_dividend_date2.len()
                        == 0,
            ));
        }
        let mut i: usize = 0;
        while i < n
            invariant
                n == self.records@.len(),
                0 <= i <= n,
                crate::dividend::models(out@) == crate::dividend::models(
                    self.records@.subrange(0, i as int),
                ).filter(
                    |m: DividendModel|
                        m.year == year && m.ex_dividend_date1.len() == 0
                            && m.ex_dividend_date2.len() == 0,
                ),
            decreases n - i,
        {
            let ghost pre_out = out@;
            if self.records[i].year == year && self.records[i].is_unannounced() {
                let copy = self.records[i].duplicate();
                out.push(copy);
            }
            proof {
                reveal(Seq::filter);
                let pred = |m: DividendModel|
                    m.year == year && m.ex_dividend_date1.len() == 0 && m.ex_dividend_date2.len()
                        == 0;
                let prefix = crate::dividend::models(self.records@.subrange(0, i as int));
                let prefix1 = crate::dividend::models(self.records@.subrange(0, i + 1int));
                assert(self.records@.subrange(0, i + 1int).drop_last() =~= self.records@.subrange(
                    0,
                    i as int,
                ));
                assert(prefix1.drop_last() =~= prefix);
                assert(prefix1.last() == self.records@[i as int].model());
                if pred(self.records@[i as int].model()) {
                    assert(crate::dividend::models(out@) =~= crate::dividend::models(
                        pre_out,
                    ).push(self.records@[i as int].model()));
                    assert(prefix1.filter(pred) =~= prefix.filter(pred).push(
                        self.records@[i as int].model(),
                    ));
                } else {
                    assert(crate::dividend::models(out@) =~= crate::dividend::models(pre_out));
                }
            }
            i = i + 1;
        }
        proof {
            assert(self.records@.subrange(0, n as int) =~= self.records@);
        }
        out
    }

    /// How many rows of `year` a security holds.
    pub fn count_for(&self, symbol: &String, year: i32) -> (r: usize)
        ensures
            r == spec_count_for(self.records@, symbol@, year as int),
    {
        let n = self.records.len();
        let mut count: usize = 0;
        let mut i: usize = 0;
        while i < n
            invariant
                n == self.records@.len(),
                0 <= i <= n,
                count == spec_count_for(self.records@.subrange(0, i as int), symbol@, year as int),
                count <= i,
            decreases n - i,
        {
            proof {
                assert(self.records@.subrange(0, i + 1int).drop_last() =~= self.records@.subrange(
                    0,
                    i as int,
                ));
            }
            if self.records[i].security_code.eq(symbol) && self.records[i].year == year {
                count = count + 1;
            }
            i = i + 1;
        }
        proof {
            assert(self.records@.subrange(0, n as int) =~= self.records@);
        }
        count
    }

    /// The symbols that hold no row, or more than one unresolved row, for
    /// `year`: the candidates of the missing-or-multiple workflow.
    pub fn select_without_or_multiple(&self, symbols: &Vec<String>, year: i32) -> (r: Vec<String>)
        ensures
            views(r@) == views(symbols@).filter(
                |s: Seq<char>| spec_count_for(self.records@, s, year as int) != 1,
            ),
    {
        let n = symbols.len();
        let mut out: Vec<String> = Vec::new();
        proof {
            reveal(Seq::filter);
            assert(views(symbols@.subrange(0, 0)) =~= Seq::<Seq<char>>::empty());
            assert(views(out@) =~= Seq::<Seq<char>>::empty().filter(
                |s: Seq<char>| spec_count_for(self.records@, s, year as int) != 1,
            ));
        }
        let mut i: usize = 0;
        while i < n
            invariant
                n == symbols@.len(),
                0 <= i <= n,
                views(out@) == views(symbols@.subrange(0, i as int)).filter(
                    |s: Seq<char>| spec_count_for(self.records@, s, year as int) != 1,
                ),
            decreases n - i,
        {
            let ghost pre_out = out@;
            let c = self.count_for(&symbols[i], year);
            if c != 1 {
                let copy = symbols[i].clone();
                out.push(copy);
            }
            proof {
                reveal(Seq::filter);
                let pred = |s: Seq<char>| spec_count_for(self.records@, s, year as int) != 1;
                let prefix = views(symbols@.subrange(0, i as int));
                let prefix1 = views(symbols@.subrange(0, i + 1int));
                assert(symbols@.subrange(0, i + 1int).drop_last() =~= symbols@.subrange(
                    0,
                    i as int,
                ));
                assert(prefix1.drop_last() =~= prefix);
                assert(prefix1.last() == symbols@[i as int]@);
                if pred(symbols@[i as int]@) {
                    assert(views(out@) =~= views(pre_out).push(symbols@[i as int]@));
                    assert(prefix1.filter(pred) =~= prefix.filter(pred).push(
                        symbols@[i as int]@,
                    ));
                } else {
                    assert(views(out@) =~= views(pre_out));
                }
            }
            i = i + 1;
        }
        proof {
            assert(symbols@.subrange(0, n as int) =~= symbols@);
        }
        out
    }
}

/// How many records of `s` carry `symbol` and `year`.
pub open spec fn spec_count_for(s: Seq<DividendRecord>, symbol: Seq<char>, year: int) -> int
    decreases s.len(),
{
    if s.len() == 0 {
        0
    } else {
        spec_count_for(s.drop_last(), symbol, year) + if s.last().security_code@ == symbol
            && s.last().year == year {
            1int
        } else {
            0int
        }
    }
}

/// The views of a sequence of strings.
pub open spec fn views(s: Seq<String>) -> Seq<Seq<char>> {
    s.map_values(|x: String| x@)
}

/// Idempotent upsert: writing the same record twice leaves the same stored
/// state as writing it once — no duplicate rows and no residual stale
/// fields.
pub proof fn lemma_upsert_idempotent(
    s0: DividendStore,
    s1: DividendStore,
    s2: DividendStore,
    rec: DividendModel,
    key: (Seq<char>, int, Seq<char>),
)
    requires
        s1.view_map() == s0.view_map().insert(key, rec),
        s2.view_map() == s1.view_map().insert(key, rec),
    ensures
        s2.view_map() == s1.view_map(),
{
    assert(s2.view_map() =~= s1.view_map());
}

/// A security's symbol and display name, as the ex-dividend-day read
/// returns them.
pub struct SymbolAndName {
    pub stock_symbol: String,
    pub name: String,
}

/// The parameters of the ex-dividend-day read: the rows of `date`'s year
/// whose first or second ex-dividend date equals the date written
/// `YYYY-MM-DD`.
pub fn dividends_on_date_params(date: &crate::dates::CivilDate) -> (r: (i32, String))
    requires
        date.valid(),
    ensures
        r.0 == date.year,
        r.1@ == crate::dates::spec_format_ymd(*date),
{
    (date.year, crate::dates::format_ymd(date))
}

/// The parameters of the daily money-history upsert: the window opens one
/// month (thirty days) before `date`, and the row is keyed by the date
/// written `YYYY-MM-DD`.
pub fn money_history_params(date: &crate::dates::CivilDate) -> (r: (
    crate::dates::CivilDate,
    String,
))
    requires
        date.valid(),
    ensures
        r.0 == crate::dates::spec_sub_days(*date, 30),
        r.0.valid(),
        r.1@ == crate::dates::spec_format_ymd(*date),
{
    (crate::dates::sub_days(date, 30), crate::dates::format_ymd(date))
}

} // verus!
