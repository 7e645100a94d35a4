//! Six-field cron expressions: seconds, minutes, hours, day of month,
//! month, day of week, separated by single spaces. A field is `*`, a
//! number, or a comma-separated list of numbers and `a-b` ranges. A
//! malformed expression is a startup-time configuration error.
//!
//! All fields are matched against one clock (the caller's civil time), with
//! day of week `0` = Sunday through `6` = Saturday.

use vstd::prelude::*;

use crate::errors::SchedulerConfigError;
use crate::text::{digits_val, parseable_digits, parse_digits};

verus! {

/// Index of the first occurrence of `c` in `s`, or the length if absent.
pub open spec fn first_index_of(s: Seq<char>, c: char) -> int
    decreases s.len(),
{
    if s.len() == 0 {
        0
    } else if s[0] == c {
        0
    } else {
        1 + first_index_of(s.drop_first(), c)
    }
}

proof fn lemma_first_index_of(s: Seq<char>, c: char)
    ensures
        0 <= first_index_of(s, c) <= s.len(),
        forall|i: int| 0 <= i < first_index_of(s, c) ==> s[i] != c,
        first_index_of(s, c) < s.len() ==> s[first_index_of(s, c)] == c,
    decreases s.len(),
{
    if s.len() > 0 && s[0] != c {
        lemma_first_index_of(s.drop_first(), c);
        let k = first_index_of(s, c);
        assert(k == 1 + first_index_of(s.drop_first(), c));
        assert forall|i: int| 0 <= i < k implies s[i] != c by {
            if i > 0 {
                assert(s.drop_first()[i - 1] == s[i]);
            }
        }
        if k < s.len() {
            assert(s.drop_first()[k - 1] == s[k]);
        }
    }
}

proof fn lemma_first_index_at(s: Seq<char>, c: char, k: int)
    requires
        0 <= k <= s.len(),
        forall|i: int| 0 <= i < k ==> s[i] != c,
        k < s.len() ==> s[k] == c,
    ensures
        first_index_of(s, c) == k,
    decreases s.len(),
{
    if s.len() > 0 && s[0] != c {
        assert(k >= 1);
        assert(forall|i: int| 0 <= i < k - 1 ==> s.drop_first()[i] == s[i + 1]);
        lemma_first_index_at(s.drop_first(), c, k - 1);
    }
}

/// `s` split on every space, as `split(' ')` splits it: adjacent spaces
/// yield empty pieces.
pub open spec fn split_on_space(s: Seq<char>) -> Seq<Seq<char>>
    decreases s.len(),
    via split_on_space_decreases
{
    let k = first_index_of(s, ' ');
    if k >= s.len() {
        seq![s]
    } else {
        seq![s.subrange(0, k)] + split_on_space(s.subrange(k + 1, s.len() as int))
    }
}

#[via_fn]
proof fn split_on_space_decreases(s: Seq<char>) {
    lemma_first_index_of(s, ' ');
}

/// Find the first occurrence of `c`, scanning characters.
fn find_char(s: &str, c: char) -> (r: usize)
    ensures
        r == first_index_of(s@, c),
        r <= s@.len(),
{
    let n = s.unicode_len();
    let mut i: usize = 0;
    while i < n
        invariant
            n == s@.len(),
            0 <= i <= n,
            forall|j: int| 0 <= j < i ==> s@[j] != c,
        decreases n - i,
    {
        if s.get_char(i) == c {
            proof {
                lemma_first_index_at(s@, c, i as int);
            }
            return i;
        }
        i = i + 1;
    }
    proof {
        lemma_first_index_at(s@, c, n as int);
    }
    n
}

/// Split on spaces, as the spec does.
fn split_all(s: &str) -> (r: Vec<String>)
    ensures
        crate::persistence::views(r@) == split_on_space(s@),
    decreases s@.len(),
{
    let n = s.unicode_len();
    let k = find_char(s, ' ');
    if k >= n {
        let whole: String = s.to_owned();
        let mut out: Vec<String> = Vec::new();
        out.push(whole);
        proof {
            assert(crate::persistence::views(out@) =~= split_on_space(s@));
        }
        out
    } else {
        let head: String = s.substring_char(0, k).to_owned();
        let rest = s.substring_char(k + 1, n);
        let mut tail = split_all(rest);
        let mut out: Vec<String> = Vec::new();
        out.push(head);
        out.append(&mut tail);
        proof {
            assert(crate::persistence::views(out@) =~= split_on_space(s@));
        }
        out
    }
}

/// A single list item is valid: a bounded number, or a bounded
/// nondecreasing `a-b` range.
pub open spec fn valid_item(s: Seq<char>, lo: int, hi: int) -> bool {
    if parseable_digits(s) {
        lo <= digits_val(s) <= hi
    } else {
        exists|k: int| #[trigger] valid_dash_split(s, k, lo, hi)
    }
}

/// `s` splits at `k` into a valid `a-b` range.
pub open spec fn valid_dash_split(s: Seq<char>, k: int, lo: int, hi: int) -> bool {
    0 <= k < s.len() && s[k] == '-' && parseable_digits(s.subrange(0, k)) && parseable_digits(
        s.subrange(k + 1, s.len() as int),
    ) && lo <= digits_val(s.subrange(0, k)) && digits_val(s.subrange(0, k)) <= digits_val(
        s.subrange(k + 1, s.len() as int),
    ) && digits_val(s.subrange(k + 1, s.len() as int)) <= hi
}

/// The values a single valid item admits.
pub open spec fn item_allows(s: Seq<char>, v: int) -> bool {
    if parseable_digits(s) {
        v == digits_val(s)
    } else {
        exists|k: int|
            #[trigger] dash_split_at(s, k) && digits_val(s.subrange(0, k)) <= v <= digits_val(
                s.subrange(k + 1, s.len() as int),
            )
    }
}

/// `s` has a digits-dash-digits shape split at `k`.
pub open spec fn dash_split_at(s: Seq<char>, k: int) -> bool {
    0 <= k < s.len() && s[k] == '-' && parseable_digits(s.subrange(0, k)) && parseable_digits(
        s.subrange(k + 1, s.len() as int),
    )
}

/// A comma-separated list of valid items.
pub open spec fn valid_list(s: Seq<char>, lo: int, hi: int) -> bool
    decreases s.len(),
    via valid_list_decreases
{
    let k = first_index_of(s, ',');
    if k >= s.len() {
        valid_item(s, lo, hi)
    } else {
        valid_item(s.subrange(0, k), lo, hi) && valid_list(
            s.subrange(k + 1, s.len() as int),
            lo,
            hi,
        )
    }
}

#[via_fn]
proof fn valid_list_decreases(s: Seq<char>, lo: int, hi: int) {
    lemma_first_index_of(s, ',');
}

/// The values a comma-separated list admits: those some item admits.
pub open spec fn list_allows(s: Seq<char>, v: int) -> bool
    decreases s.len(),
    via list_allows_decreases
{
    let k = first_index_of(s, ',');
    if k >= s.len() {
        item_allows(s, v)
    } else {
        item_allows(s.subrange(0, k), v) || list_allows(s.subrange(k + 1, s.len() as int), v)
    }
}

#[via_fn]
proof fn list_allows_decreases(s: Seq<char>, v: int) {
    lemma_first_index_of(s, ',');
}

/// A valid cron field over `[lo, hi]`: `*` or a list.
pub open spec fn valid_field(s: Seq<char>, lo: int, hi: int) -> bool {
    s == seq!['*'] || valid_list(s, lo, hi)
}

/// The values a valid cron field admits.
pub open spec fn field_allows(s: Seq<char>, v: int) -> bool {
    s == seq!['*'] || list_allows(s, v)
}

/// One parsed cron field: everything, or an explicit set of values.
pub enum CronField {
    Any,
    Values(Vec<u8>),
}

impl CronField {
    /// The values this field admits.
    pub open spec fn spec_allows(self, v: int) -> bool {
        match self {
            CronField::Any => true,
            CronField::Values(vs) => seq_has(vs@, v),
        }
    }

    /// Whether this field admits `v`.
    pub fn allows(&self, v: u8) -> (r: bool)
        ensures
            r == self.spec_allows(v as int),
    {
        match self {
            CronField::Any => true,
            CronField::Values(vs) => contains_u8(vs, v),
        }
    }
}

/// Linear scan for `v`.
fn contains_u8(vs: &Vec<u8>, v: u8) -> (r: bool)
    ensures
        r == seq_has(vs@, v as int),
{
    let n = vs.len();
    let mut i: usize = 0;
    while i < n
        invariant
            n == vs@.len(),
            0 <= i <= n,
            forall|j: int| 0 <= j < i ==> vs@[j] != v,
        decreases n - i,
    {
        if vs[i] == v {
            proof {
                assert(vs@[i as int] == v);
            }
            return true;
        }
        i = i + 1;
    }
    false
}

/// Push every value of `a..=b` onto `acc`.
fn push_range(acc: &mut Vec<u8>, a: u8, b: u8)
    requires
        a <= b,
    ensures
        final(acc)@.len() == old(acc)@.len() + (b - a) + 1,
        forall|j: int| 0 <= j < old(acc)@.len() ==> final(acc)@[j] == old(acc)@[j],
        forall|j: int|
            old(acc)@.len() <= j < final(acc)@.len() ==> final(acc)@[j] == a + (j - old(
                acc,
            )@.len()),
    decreases b - a,
{
    acc.push(a);
    if a < b {
        push_range(acc, a + 1, b);
    }
}


/// `vs` holds the value `v`.
pub open spec fn seq_has(vs: Seq<u8>, v: int) -> bool {
    exists|i: int| 0 <= i < vs.len() && vs[i] == v
}

/// The value set `vs` admits exactly what the written item admits.
pub open spec fn values_match_item(s: Seq<char>, vs: Seq<u8>) -> bool {
    forall|v: int| #![trigger item_allows(s, v)] seq_has(vs, v) <==> item_allows(s, v)
}

/// The value set `vs` admits exactly what the written list admits.
pub open spec fn values_match_list(s: Seq<char>, vs: Seq<u8>) -> bool {
    forall|v: int| #![trigger list_allows(s, v)] seq_has(vs, v) <==> list_allows(s, v)
}

/// The parsed field admits exactly what the written field admits.
pub open spec fn field_matches_text(f: CronField, s: Seq<char>) -> bool {
    forall|v: int| #![trigger field_allows(s, v)] f.spec_allows(v) <==> field_allows(s, v)
}

/// Parse one list item: a number or an `a-b` range, bounded by `[lo, hi]`.
/// The returned values admit exactly what the item admits.
#[verifier::rlimit(50)]
fn parse_item(s: &str, lo: u8, hi: u8) -> (r: Result<Vec<u8>, SchedulerConfigError>)
    ensures
        r is Ok <==> valid_item(s@, lo as int, hi as int),
        r matches Ok(vs) ==> values_match_item(s@, vs@),
{
    let n = s.unicode_len();
    let k = find_char(s, '-');
    if k >= n {
        // no dash: there is no dash split, so the item must be a number
        proof {
            lemma_first_index_of(s@, '-');
            assert forall|j: int| !#[trigger] dash_split_at(s@, j) by {
                if 0 <= j < s@.len() {
                    assert(s@[j] != '-');
                }
            }
            assert(forall|j: int| !#[trigger] valid_dash_split(s@, j, lo as int, hi as int));
        }
        match parse_digits(s) {
            None => Err(SchedulerConfigError::MalformedCron),
            Some(v) => {
                if v < lo as u32 || v > hi as u32 {
                    Err(SchedulerConfigError::MalformedCron)
                } else {
                    let mut vs: Vec<u8> = Vec::new();
                    vs.push(v as u8);
                    proof {
                        assert forall|w: int|
                            #![trigger item_allows(s@, w)]
                            seq_has(vs@, w) <==> item_allows(s@, w) by {
                            if w == digits_val(s@) {
                                assert(vs@[0] == w);
                            }
                            if seq_has(vs@, w) {
                                let i = choose|i: int| 0 <= i < vs@.len() && vs@[i] == w;
                                assert(i == 0);
                            }
                        }
                        assert(values_match_item(s@, vs@));
                    }
                    Ok(vs)
                }
            },
        }
    } else {
        // a dash: the item can only be a range split at the first dash,
        // since the digits left of any split admit no dash
        proof {
            lemma_first_index_of(s@, '-');
            assert forall|j: int| #[trigger] dash_split_at(s@, j) implies j == k as int by {
                if j < k as int {
                    assert(s@[j] != '-');
                } else if j > k as int {
                    assert(s@.subrange(0, j)[k as int] == s@[k as int]);
                    assert(!parseable_digits(s@.subrange(0, j)));
                }
            }
            assert forall|j: int| #[trigger] valid_dash_split(s@, j, lo as int, hi as int)
                implies j == k as int by {
                assert(dash_split_at(s@, j));
            }
            assert(!parseable_digits(s@)) by {
                assert(s@[k as int] == '-');
            }
        }
        let left = s.substring_char(0, k);
        let right = s.substring_char(k + 1, n);
        let a = match parse_digits(left) {
            None => {
                return Err(SchedulerConfigError::MalformedCron);
            },
            Some(a) => a,
        };
        let b = match parse_digits(right) {
            None => {
                return Err(SchedulerConfigError::MalformedCron);
            },
            Some(b) => b,
        };
        if a < lo as u32 || a > b || b > hi as u32 {
            proof {
                assert(!valid_dash_split(s@, k as int, lo as int, hi as int));
            }
            Err(SchedulerConfigError::MalformedCron)
        } else {
            proof {
                assert(valid_dash_split(s@, k as int, lo as int, hi as int));
                assert(dash_split_at(s@, k as int));
            }
            let mut vs: Vec<u8> = Vec::new();
            push_range(&mut vs, a as u8, b as u8);
            proof {
                assert(digits_val(s@.subrange(0, k as int)) == a);
                assert(digits_val(s@.subrange(k as int + 1, s@.len() as int)) == b);
                assert forall|v: int|
                    #![trigger item_allows(s@, v)]
                    seq_has(vs@, v) <==> item_allows(s@, v) by {
                    if a <= v <= b {
                        assert(vs@[v - a] == v);
                        assert(item_allows(s@, v));
                    }
                    if seq_has(vs@, v) {
                        let i = choose|i: int| 0 <= i < vs@.len() && vs@[i] == v;
                        assert(vs@[i] == a + i);
                        assert(a <= v <= b);
                    }
                    if item_allows(s@, v) {
                        let j = choose|j: int|
                            #[trigger] dash_split_at(s@, j) && digits_val(s@.subrange(0, j)) <= v
                                <= digits_val(s@.subrange(j + 1, s@.len() as int));
                        assert(j == k as int);
                        assert(a <= v <= b);
                        assert(vs@[v - a] == v);
                    }
                }
                assert(values_match_item(s@, vs@));
            }
            Ok(vs)
        }
    }
}

/// Parse a comma-separated list of items.
#[verifier::rlimit(50)]
fn parse_list(s: &str, lo: u8, hi: u8) -> (r: Result<Vec<u8>, SchedulerConfigError>)
    ensures
        r is Ok <==> valid_list(s@, lo as int, hi as int),
        r matches Ok(vs) ==> values_match_list(s@, vs@),
    decreases s@.len(),
{
    let n = s.unicode_len();
    let k = find_char(s, ',');
    if k >= n {
        match parse_item(s, lo, hi) {
            Err(e) => Err(e),
            Ok(vs) => {
                proof {
                    assert forall|v: int|
                        #![trigger list_allows(s@, v)]
                        seq_has(vs@, v) <==> list_allows(s@, v) by {
                        assert(list_allows(s@, v) == item_allows(s@, v));
                        assert(item_allows(s@, v) <==> seq_has(vs@, v));
                    }
                    assert(values_match_list(s@, vs@));
                }
                Ok(vs)
            },
        }
    } else {
        let head = s.substring_char(0, k);
        let rest = s.substring_char(k + 1, n);
        let mut vs = match parse_item(head, lo, hi) {
            Err(e) => {
                return Err(e);
            },
            Ok(vs) => vs,
        };
        let mut tail = match parse_list(rest, lo, hi) {
            Err(e) => {
                return Err(e);
            },
            Ok(t) => t,
        };
        let ghost vs_pre = vs@;
        let ghost tail_pre = tail@;
        vs.append(&mut tail);
        proof {
            assert(head@ == s@.subrange(0, k as int));
            assert(rest@ == s@.subrange(k as int + 1, s@.len() as int));
            assert(vs@ == vs_pre + tail_pre);
            assert forall|v: int|
                #![trigger list_allows(s@, v)]
                seq_has(vs@, v) <==> list_allows(s@, v) by {
                if seq_has(vs@, v) {
                    let i = choose|i: int| 0 <= i < vs@.len() && vs@[i] == v;
                    if i < vs_pre.len() {
                        assert(vs_pre[i] == v);
                        assert(item_allows(head@, v));
                    } else {
                        assert(tail_pre[i - vs_pre.len()] == v);
                        assert(list_allows(rest@, v));
                    }
                    assert(list_allows(s@, v));
                }
                if list_allows(s@, v) {
                    if item_allows(head@, v) {
                        let i = choose|i: int| 0 <= i < vs_pre.len() && vs_pre[i] == v;
                        assert(vs@[i] == v);
                    } else {
                        assert(list_allows(rest@, v));
                        let i = choose|i: int| 0 <= i < tail_pre.len() && tail_pre[i] == v;
                        assert(vs@[vs_pre.len() + i] == v);
                    }
                }
            }
            assert(values_match_list(s@, vs@));
        }
        Ok(vs)
    }
}

/// Parse one cron field over `[lo, hi]`. The parsed field admits exactly
/// the values the written field admits.
#[verifier::rlimit(50)]
pub fn parse_field(s: &str, lo: u8, hi: u8) -> (r: Result<CronField, SchedulerConfigError>)
    ensures
        r is Ok <==> valid_field(s@, lo as int, hi as int),
        r matches Ok(f) ==> field_matches_text(f, s@),
{
    let n = s.unicode_len();
    if n == 1 && s.get_char(0) == '*' {
        proof {
            assert(s@ =~= seq!['*']);
            assert(field_matches_text(CronField::Any, s@));
        }
        return Ok(CronField::Any);
    }
    proof {
        assert(s@ != seq!['*']) by {
            if s@ == seq!['*'] {
                assert(s@.len() == 1 && s@[0] == '*');
            }
        }
    }
    match parse_list(s, lo, hi) {
        Err(e) => Err(e),
        Ok(vs) => {
            proof {
                assert(values_match_list(s@, vs@));
                assert forall|v: int| #![trigger field_allows(s@, v)]
                    CronField::Values(vs).spec_allows(v) <==> field_allows(s@, v) by {
                    assert(field_allows(s@, v) == list_allows(s@, v));
                    assert(list_allows(s@, v) <==> seq_has(vs@, v));
                }
                assert(field_matches_text(CronField::Values(vs), s@));
            }
            Ok(CronField::Values(vs))
        },
    }
}

/// A parsed six-field cron schedule.
pub struct CronSchedule {
    pub sec: CronField,
    pub min: CronField,
    pub hour: CronField,
    pub dom: CronField,
    pub month: CronField,
    pub dow: CronField,
}

/// One instant of civil time, reduced to the six cron fields. Day of week
/// is `0` = Sunday through `6` = Saturday.
#[derive(Clone, Copy, PartialEq, Eq, Structural, Debug)]
pub struct TimeParts {
    pub sec: u8,
    pub min: u8,
    pub hour: u8,
    pub dom: u8,
    pub month: u8,
    pub dow: u8,
}

impl CronSchedule {
    /// The schedule fires at `t`: every field admits its component.
    pub open spec fn spec_due(self, t: TimeParts) -> bool {
        self.sec.spec_allows(t.sec as int) && self.min.spec_allows(t.min as int)
            && self.hour.spec_allows(t.hour as int) && self.dom.spec_allows(t.dom as int)
            && self.month.spec_allows(t.month as int) && self.dow.spec_allows(t.dow as int)
    }

    /// Whether the schedule fires at `t`.
    pub fn due(&self, t: &TimeParts) -> (r: bool)
        ensures
            r == self.spec_due(*t),
    {
        self.sec.allows(t.sec) && self.min.allows(t.min) && self.hour.allows(t.hour)
            && self.dom.allows(t.dom) && self.month.allows(t.month) && self.dow.allows(t.dow)
    }
}

/// A valid cron expression: six space-separated fields, each over its
/// range — seconds 0-59, minutes 0-59, hours 0-23, day of month 1-31,
/// month 1-12, day of week 0-6.
pub open spec fn valid_cron(s: Seq<char>) -> bool {
    let toks = split_on_space(s);
    toks.len() == 6 && valid_field(toks[0], 0, 59) && valid_field(toks[1], 0, 59) && valid_field(
        toks[2],
        0,
        23,
    ) && valid_field(toks[3], 1, 31) && valid_field(toks[4], 1, 12) && valid_field(toks[5], 0, 6)
}

/// The written expression fires at `t`.
pub open spec fn cron_text_due(s: Seq<char>, t: TimeParts) -> bool {
    let toks = split_on_space(s);
    field_allows(toks[0], t.sec as int) && field_allows(toks[1], t.min as int) && field_allows(
        toks[2],
        t.hour as int,
    ) && field_allows(toks[3], t.dom as int) && field_allows(toks[4], t.month as int)
        && field_allows(toks[5], t.dow as int)
}

/// Parse a six-field cron expression. The parsed schedule fires exactly
/// when the written expression fires.
pub fn parse_cron(s: &str) -> (r: Result<CronSchedule, SchedulerConfigError>)
    ensures
        r is Ok <==> valid_cron(s@),
        r matches Ok(sched) ==> forall|t: TimeParts|
            #[trigger] sched.spec_due(t) <==> cron_text_due(s@, t),
{
    let toks = split_all(s);
    if toks.len() != 6 {
        proof {
            assert(crate::persistence::views(toks@).len() == toks@.len());
        }
        return Err(SchedulerConfigError::MalformedCron);
    }
    proof {
        assert(crate::persistence::views(toks@)[0] == toks@[0]@);
        assert(crate::persistence::views(toks@)[1] == toks@[1]@);
        assert(crate::persistence::views(toks@)[2] == toks@[2]@);
        assert(crate::persistence::views(toks@)[3] == toks@[3]@);
        assert(crate::persistence::views(toks@)[4] == toks@[4]@);
        assert(crate::persistence::views(toks@)[5] == toks@[5]@);
    }
    let sec = match parse_field(toks[0].as_str(), 0, 59) {
        Err(e) => {
            return Err(e);
        },
        Ok(f) => f,
    };
    let min = match parse_field(toks[1].as_str(), 0, 59) {
        Err(e) => {
            return Err(e);
        },
        Ok(f) => f,
    };
    let hour = match parse_field(toks[2].as_str(), 0, 23) {
        Err(e) => {
            return Err(e);
        },
        Ok(f) => f,
    };
    let dom = match parse_field(toks[3].as_str(), 1, 31) {
        Err(e) => {
            return Err(e);
        },
        Ok(f) => f,
    };
    let month = match parse_field(toks[4].as_str(), 1, 12) {
        Err(e) => {
            return Err(e);
        },
        Ok(f) => f,
    };
    let dow = match parse_field(toks[5].as_str(), 0, 6) {
        Err(e) => {
            return Err(e);
        },
        Ok(f) => f,
    };
    let sched = CronSchedule { sec, min, hour, dom, month, dow };
    proof {
        assert forall|t: TimeParts| #[trigger]
            sched.spec_due(t) <==> cron_text_due(s@, t) by {
            assert(field_matches_text(sched.sec, toks@[0]@));
            assert(field_matches_text(sched.min, toks@[1]@));
            assert(field_matches_text(sched.hour, toks@[2]@));
            assert(field_matches_text(sched.dom, toks@[3]@));
            assert(field_matches_text(sched.month, toks@[4]@));
            assert(field_matches_text(sched.dow, toks@[5]@));
        }
    }
    Ok(sched)
}

/// Splitting off the first token: with the first space at `k`, the split is
/// the head before `k` followed by the split of what follows `k`.
pub(crate) proof fn lemma_split_head(s: Seq<char>, k: int)
    requires
        0 <= k < s.len(),
        s[k] == ' ',
        forall|i: int| 0 <= i < k ==> s[i] != ' ',
    ensures
        split_on_space(s) == seq![s.subrange(0, k)] + split_on_space(
            s.subrange(k + 1, s.len() as int),
        ),
{
    lemma_first_index_at(s, ' ', k);
}

/// A spaceless text splits into itself alone.
pub(crate) proof fn lemma_split_single(s: Seq<char>)
    requires
        forall|i: int| 0 <= i < s.len() ==> s[i] != ' ',
    ensures
        split_on_space(s) == seq![s],
{
    lemma_first_index_at(s, ' ', s.len() as int);
}

/// The value of a one-digit string.
pub(crate) proof fn lemma_digits_val1(tok: Seq<char>)
    requires
        tok.len() == 1,
    ensures
        digits_val(tok) == crate::text::digit_val(tok[0]),
{
    assert(tok.drop_last().len() == 0);
    assert(digits_val(tok.drop_last()) == 0);
}

/// The value of a two-digit string.
pub(crate) proof fn lemma_digits_val2(tok: Seq<char>)
    requires
        tok.len() == 2,
    ensures
        digits_val(tok) == crate::text::digit_val(tok[0]) * 10 + crate::text::digit_val(tok[1]),
{
    let head = tok.drop_last();
    assert(head.len() == 1);
    lemma_digits_val1(head);
    assert(head[0] == tok[0]);
}

/// A short all-digit token within bounds is a valid field that admits
/// exactly its value.
pub(crate) proof fn lemma_digits_field(tok: Seq<char>, lo: int, hi: int)
    requires
        parseable_digits(tok),
        lo <= digits_val(tok) <= hi,
    ensures
        valid_field(tok, lo, hi),
        forall|v: int| #[trigger] field_allows(tok, v) <==> v == digits_val(tok),
{
    assert forall|i: int| 0 <= i < tok.len() implies tok[i] != ',' by {
        assert(crate::text::is_digit_char(tok[i]));
    }
    lemma_first_index_at(tok, ',', tok.len() as int);
    assert(valid_item(tok, lo, hi));
    assert(valid_list(tok, lo, hi));
    assert(tok != seq!['*']) by {
        assert(crate::text::is_digit_char(tok[0]));
        if tok == seq!['*'] {
            assert(tok[0] == '*');
        }
    }
    assert forall|v: int| #[trigger] field_allows(tok, v) <==> v == digits_val(tok) by {
        assert(field_allows(tok, v) == list_allows(tok, v));
        assert(list_allows(tok, v) == item_allows(tok, v));
    }
}

/// The `*` token is a valid field admitting every value.
pub(crate) proof fn lemma_star_field(tok: Seq<char>, lo: int, hi: int)
    requires
        tok.len() == 1,
        tok[0] == '*',
    ensures
        valid_field(tok, lo, hi),
        forall|v: int| #[trigger] field_allows(tok, v),
{
    assert(tok =~= seq!['*']);
}

} // verus!
