//! The suspended-listing workflow's decisions: on a weekday, hold the
//! whole-market delisting rows against the shared cache and compute the
//! delta — the records that must be flagged suspended — outside any lock.
//! The caller persists each update and then writes the delta back into the
//! cache in bulk.

use vstd::prelude::*;

use crate::cache::{SharedCache, StockRecord};
use crate::dates::{spec_is_weekend, CivilDate};
use crate::text::{digits_val, parseable_digits, parse_digits};

verus! {

/// One row of the whole-market suspension list, field names as the wire
/// format carries them: a delisting date written with a Republic-era year,
/// the company name, and the stock symbol.
pub struct SuspendListing {
    pub delisting_date: String,
    pub name: String,
    pub stock_symbol: String,
}

/// The Republic-era year written in the first three characters of a
/// delisting date, if they are digits.
pub open spec fn spec_roc_year(s: Seq<char>) -> Option<int> {
    if s.len() >= 3 && parseable_digits(s.subrange(0, 3)) {
        Option::Some(digits_val(s.subrange(0, 3)) as int)
    } else {
        Option::None
    }
}

/// Read the Republic-era year of a delisting date.
pub fn roc_year(s: &str) -> (r: Option<u32>)
    ensures
        r matches Some(y) ==> spec_roc_year(s@) == Some(y as int),
        r is None <==> spec_roc_year(s@) is None,
{
    let n = s.unicode_len();
    if n < 3 {
        return None;
    }
    let head = s.substring_char(0, 3);
    parse_digits(head)
}

/// The suspension job runs on weekdays only: the market publishes nothing
/// on a weekend.
pub fn should_visit(today: &CivilDate) -> (r: bool)
    requires
        today.valid(),
    ensures
        r == !spec_is_weekend(*today),
{
    !crate::dates::is_weekend(today)
}

/// A delisting row demands an update: its symbol is cached, the cached
/// record is not yet flagged, and its delisting year is a Republic-era
/// year of 110 or later.
pub open spec fn spec_wants_update(
    m: Map<Seq<char>, (Seq<char>, bool)>,
    row: SuspendListing,
) -> bool {
    m.dom().contains(row.stock_symbol@) && !m[row.stock_symbol@].1 && match spec_roc_year(
        row.delisting_date@,
    ) {
        Option::Some(y) => y >= 110,
        Option::None => false,
    }
}

/// The delta a row sequence produces against a cache: for each row that
/// demands an update, the cached record with the suspended flag set.
pub open spec fn spec_suspend_updates(
    m: Map<Seq<char>, (Seq<char>, bool)>,
    rows: Seq<SuspendListing>,
) -> Seq<(Seq<char>, Seq<char>, bool)>
    decreases rows.len(),
{
    if rows.len() == 0 {
        Seq::empty()
    } else {
        spec_suspend_updates(m, rows.drop_last()) + if spec_wants_update(m, rows.last()) {
            seq![(rows.last().stock_symbol@, m[rows.last().stock_symbol@].0, true)]
        } else {
            Seq::empty()
        }
    }
}

/// The records of a sequence, as plain values.
pub open spec fn stock_models(s: Seq<StockRecord>) -> Seq<(Seq<char>, Seq<char>, bool)> {
    s.map_values(|r: StockRecord| r.model())
}

/// Compute, outside any lock, the records the delisting rows flag as
/// suspended: one update per row whose symbol is cached, not yet flagged,
/// and delisted in a Republic-era year of 110 or later. Rows of unknown
/// symbols, already-flagged records and unreadable dates are skipped.
pub fn select_suspend_updates(cache: &SharedCache, rows: &Vec<SuspendListing>) -> (r: Vec<
    StockRecord,
>)
    requires
        cache.wf(),
    ensures
        stock_models(r@) == spec_suspend_updates(cache.view_map(), rows@),
{
    let n = rows.len();
    let mut out: Vec<StockRecord> = Vec::new();
    proof {
        assert(stock_models(out@) =~= spec_suspend_updates(
            cache.view_map(),
            rows@.subrange(0, 0),
        ));
    }
    let mut i: usize = 0;
    while i < n
        invariant
            n == rows@.len(),
            0 <= i <= n,
            cache.wf(),
            stock_models(out@) == spec_suspend_updates(cache.view_map(), rows@.subrange(0, i as int)),
        decreases n - i,
    {
        let ghost pre_out = out@;
        let row = &rows[i];
        match cache.get_snapshot(&row.stock_symbol) {
            None => {},
            Some(mut rec) => {
                if !rec.suspend_listing {
                    match roc_year(row.delisting_date.as_str()) {
                        None => {},
                        Some(y) => {
                            if y >= 110 {
                                rec.suspend_listing = true;
                                out.push(rec);
                            }
                        },
                    }
                }
            },
        }
        proof {
            let prefix = rows@.subrange(0, i as int);
            let prefix1 = rows@.subrange(0, i + 1int);
            assert(prefix1.drop_last() =~= prefix);
            assert(prefix1.last() == rows@[i as int]);
            if spec_wants_update(cache.view_map(), rows@[i as int]) {
                assert(stock_models(out@) =~= stock_models(pre_out).push(
                    (
                        rows@[i as int].stock_symbol@,
                        cache.view_map()[rows@[i as int].stock_symbol@].0,
                        true,
                    ),
                ));
                assert(stock_models(out@) =~= spec_suspend_updates(cache.view_map(), prefix1));
            } else {
                assert(stock_models(out@) =~= stock_models(pre_out));
                assert(stock_models(out@) =~= spec_suspend_updates(cache.view_map(), prefix1));
            }
        }
        i = i + 1;
    }
    proof {
        assert(rows@.subrange(0, n as int) =~= rows@);
    }
    out
}

} // verus!
