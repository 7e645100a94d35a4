//! Dividend records and the reconciliation decisions of the two dividend
//! workflows: filtering fetched rows to the target period, and deciding
//! whether a stored record must be rewritten with freshly fetched dates.

use vstd::prelude::*;

verus! {

/// A dividend record. Identity is (security code, year, quarter); the
/// ex-dividend and payable dates are the mutable fields reconciliation
/// overwrites.
pub struct DividendRecord {
    pub security_code: String,
    pub year: i32,
    pub quarter: String,
    pub ex_dividend_date1: String,
    pub ex_dividend_date2: String,
    pub payable_date1: String,
    pub payable_date2: String,
}

/// What a dividend record says, as plain values.
pub struct DividendModel {
    pub security_code: Seq<char>,
    pub year: int,
    pub quarter: Seq<char>,
    pub ex_dividend_date1: Seq<char>,
    pub ex_dividend_date2: Seq<char>,
    pub payable_date1: Seq<char>,
    pub payable_date2: Seq<char>,
}

impl DividendRecord {
    /// The record as plain values.
    pub open spec fn model(self) -> DividendModel {
        DividendModel {
            security_code: self.security_code@,
            year: self.year as int,
            quarter: self.quarter@,
            ex_dividend_date1: self.ex_dividend_date1@,
            ex_dividend_date2: self.ex_dividend_date2@,
            payable_date1: self.payable_date1@,
            payable_date2: self.payable_date2@,
        }
    }

    /// The natural key the store enforces uniqueness on.
    pub open spec fn key(self) -> (Seq<char>, int, Seq<char>) {
        (self.security_code@, self.year as int, self.quarter@)
    }

    /// A field-for-field copy.
    pub fn duplicate(&self) -> (r: DividendRecord)
        ensures
            r.model() == self.model(),
    {
        DividendRecord {
            security_code: self.security_code.clone(),
            year: self.year,
            quarter: self.quarter.clone(),
            ex_dividend_date1: self.ex_dividend_date1.clone(),
            ex_dividend_date2: self.ex_dividend_date2.clone(),
            payable_date1: self.payable_date1.clone(),
            payable_date2: self.payable_date2.clone(),
        }
    }

    /// A record with neither ex-dividend date set is unannounced, and a
    /// candidate for re-fetch.
    pub open spec fn spec_is_unannounced(self) -> bool {
        self.ex_dividend_date1@.len() == 0 && self.ex_dividend_date2@.len() == 0
    }

    /// Whether both ex-dividend dates are still unset.
    pub fn is_unannounced(&self) -> (r: bool)
        ensures
            r == self.spec_is_unannounced(),
    {
        self.ex_dividend_date1.as_str().unicode_len() == 0
            && self.ex_dividend_date2.as_str().unicode_len() == 0
    }
}

/// Two records carry the same identity.
pub open spec fn spec_same_identity(a: DividendRecord, b: DividendRecord) -> bool {
    a.security_code@ == b.security_code@ && a.year == b.year && a.quarter@ == b.quarter@
}

/// Whether two records carry the same identity.
pub fn same_identity(a: &DividendRecord, b: &DividendRecord) -> (r: bool)
    ensures
        r == spec_same_identity(*a, *b),
{
    a.security_code.eq(&b.security_code) && a.year == b.year && a.quarter.eq(&b.quarter)
}

/// The fetched record's ex-dividend dates differ from the stored ones.
pub open spec fn spec_dates_differ(stored: DividendRecord, fetched: DividendRecord) -> bool {
    stored.ex_dividend_date1@ != fetched.ex_dividend_date1@ || stored.ex_dividend_date2@
        != fetched.ex_dividend_date2@
}

/// Whether the fetched ex-dividend dates differ from the stored ones.
pub fn dates_differ(stored: &DividendRecord, fetched: &DividendRecord) -> (r: bool)
    ensures
        r == spec_dates_differ(*stored, *fetched),
{
    !stored.ex_dividend_date1.eq(&fetched.ex_dividend_date1)
        || !stored.ex_dividend_date2.eq(&fetched.ex_dividend_date2)
}

/// The stored record rewritten with the fetched dates: identity kept, all
/// four date fields taken from the fetched record.
pub open spec fn spec_overwrite_dates(stored: DividendModel, fetched: DividendModel) -> DividendModel {
    DividendModel {
        security_code: stored.security_code,
        year: stored.year,
        quarter: stored.quarter,
        ex_dividend_date1: fetched.ex_dividend_date1,
        ex_dividend_date2: fetched.ex_dividend_date2,
        payable_date1: fetched.payable_date1,
        payable_date2: fetched.payable_date2,
    }
}

/// Rewrite the stored record's date fields with the fetched values, an
/// overwrite, not a merge.
pub fn overwrite_dates(stored: &DividendRecord, fetched: &DividendRecord) -> (r: DividendRecord)
    ensures
        r.model() == spec_overwrite_dates(stored.model(), fetched.model()),
{
    DividendRecord {
        security_code: stored.security_code.clone(),
        year: stored.year,
        quarter: stored.quarter.clone(),
        ex_dividend_date1: fetched.ex_dividend_date1.clone(),
        ex_dividend_date2: fetched.ex_dividend_date2.clone(),
        payable_date1: fetched.payable_date1.clone(),
        payable_date2: fetched.payable_date2.clone(),
    }
}

/// A fetched detail conflicts with the stored record: same identity, but
/// different ex-dividend dates.
pub open spec fn spec_conflicts(stored: DividendRecord, detail: DividendRecord) -> bool {
    spec_same_identity(stored, detail) && spec_dates_differ(stored, detail)
}

/// Index of the first fetched detail that conflicts with the stored record.
pub open spec fn spec_first_conflict(stored: DividendRecord, details: Seq<DividendRecord>) -> int {
    first_conflict_from(stored, details, 0)
}

/// Index of the first conflicting detail at or after `from`; the sequence
/// length if there is none.
pub open spec fn first_conflict_from(
    stored: DividendRecord,
    details: Seq<DividendRecord>,
    from: int,
) -> int
    decreases details.len() - from,
{
    if from < 0 || from >= details.len() {
        details.len() as int
    } else if spec_conflicts(stored, details[from]) {
        from
    } else {
        first_conflict_from(stored, details, from + 1)
    }
}

/// What reconciliation decides for one stored record against the fetched
/// details: `None` when nothing material differs (no write is issued), the
/// rewritten record otherwise.
pub open spec fn spec_reconcile(
    stored: DividendRecord,
    details: Seq<DividendRecord>,
) -> Option<DividendModel> {
    let i = spec_first_conflict(stored, details);
    if i < details.len() {
        Some(spec_overwrite_dates(stored.model(), details[i].model()))
    } else {
        None
    }
}

/// Reconcile one stored record against the fetched details: the first
/// detail with the same identity but different ex-dividend dates wins, and
/// its dates overwrite the stored ones; identical values produce no write.
pub fn reconcile_with(stored: &DividendRecord, details: &Vec<DividendRecord>) -> (r: Option<
    DividendRecord,
>)
    ensures
        r matches Some(rec) ==> spec_reconcile(*stored, details@) == Some(rec.model()),
        r is None <==> spec_reconcile(*stored, details@) is None,
{
    let n = details.len();
    let mut i: usize = 0;
    while i < n
        invariant
            n == details@.len(),
            0 <= i <= n,
            first_conflict_from(*stored, details@, 0) == first_conflict_from(
                *stored,
                details@,
                i as int,
            ),
        decreases n - i,
    {
        if same_identity(stored, &details[i]) && dates_differ(stored, &details[i]) {
            return Some(overwrite_dates(stored, &details[i]));
        }
        i = i + 1;
    }
    None
}

/// Candidate exclusion on no-op: when every fetched detail that shares the
/// stored record's identity reports the very same ex-dividend dates,
/// reconciliation decides against writing.
pub proof fn lemma_no_write_when_identical(stored: DividendRecord, details: Seq<DividendRecord>)
    requires
        forall|i: int|
            0 <= i < details.len() && spec_same_identity(stored, #[trigger] details[i])
                ==> !spec_dates_differ(stored, details[i]),
    ensures
        spec_reconcile(stored, details) is None,
{
    lemma_no_conflict_from(stored, details, 0);
}

proof fn lemma_no_conflict_from(stored: DividendRecord, details: Seq<DividendRecord>, from: int)
    requires
        forall|i: int|
            0 <= i < details.len() && spec_same_identity(stored, #[trigger] details[i])
                ==> !spec_dates_differ(stored, details[i]),
        from >= 0,
    ensures
        first_conflict_from(stored, details, from) == details.len(),
    decreases details.len() - from,
{
    if from < details.len() {
        lemma_no_conflict_from(stored, details, from + 1);
    }
}

/// The fetched details of the target year only, in order. Fetched result
/// sets may span many periods; the pipeline keeps only the target period,
/// and an empty result is not an error.
pub fn records_for_year(details: &Vec<DividendRecord>, year: i32) -> (r: Vec<DividendRecord>)
    ensures
        models(r@) == models(details@).filter(|m: DividendModel| m.year == year),
{
    let n = details.len();
    let mut out: Vec<DividendRecord> = Vec::new();
    proof {
        reveal(Seq::filter);
        assert(models(details@.subrange(0, 0)) =~= Seq::<DividendModel>::empty());
        assert(models(out@) =~= models(details@.subrange(0, 0)).filter(
            |m: DividendModel| m.year == year,
        ));
    }
    let mut i: usize = 0;
    while i < n
        invariant
            n == details@.len(),
            0 <= i <= n,
            models(out@) == models(details@.subrange(0, i as int)).filter(
                |m: DividendModel| m.year == year,
            ),
        decreases n - i,
    {
        let ghost pre_out = out@;
        if details[i].year == year {
            let copy = details[i].duplicate();
            out.push(copy);
        }
        proof {
            reveal(Seq::filter);
            let prefix = models(details@.subrange(0, i as int));
            let prefix1 = models(details@.subrange(0, i + 1int));
            assert(details@.subrange(0, i + 1int).drop_last() =~= details@.subrange(0, i as int));
            assert(prefix1.drop_last() =~= prefix);
            assert(prefix1.last() == details@[i as int].model());
            if details@[i as int].model().year == year {
                assert(models(out@) =~= models(pre_out).push(details@[i as int].model()));
                assert(prefix1.filter(|m: DividendModel| m.year == year) =~= prefix.filter(
                    |m: DividendModel| m.year == year,
                ).push(details@[i as int].model()));
            } else {
                assert(models(out@) =~= models(pre_out));
            }
        }
        i = i + 1;
    }
    proof {
        assert(details@.subrange(0, n as int) =~= details@);
    }
    out
}

/// The records of a sequence, as plain values.
pub open spec fn models(s: Seq<DividendRecord>) -> Seq<DividendModel> {
    s.map_values(|d: DividendRecord| d.model())
}

} // verus!
