//! Monthly revenue rows and the mapping from a source's raw text row to a
//! typed record: thousands separators are stripped, each decimal field is
//! parsed, and an unparsable field falls back to zero, never failing the
//! row.

use vstd::prelude::*;

use crate::text::stripped;

verus! {

/// A fixed-point decimal of the store's numeric columns.
#[verifier::external_type_specification]
#[verifier::external_body]
pub struct ExDecimal(rust_decimal::Decimal);

/// Relies on `rust_decimal::Decimal` being `Copy`: its derived `clone`
/// returns the value itself.
pub assume_specification[ <rust_decimal::Decimal as Clone>::clone ](
    d: &rust_decimal::Decimal,
) -> (r: rust_decimal::Decimal)
    ensures
        r == *d,
;

/// What `rust_decimal` parses a string to: a function of the characters
/// alone.
pub uninterp spec fn spec_parse_decimal(s: Seq<char>) -> Option<rust_decimal::Decimal>;

/// Relies on `rust_decimal::Decimal::from_str`: the result is a function
/// of the string alone.
#[verifier::external_body]
fn parse_decimal(s: &str) -> (r: Option<rust_decimal::Decimal>)
    ensures
        r == spec_parse_decimal(s@),
{
    core::str::FromStr::from_str(s).ok()
}

/// Relies on `rust_decimal::Decimal::from_str`: parsing `"0"` yields the
/// zero decimal, the same value `Decimal::ZERO` holds.
#[verifier::external_body]
fn decimal_zero() -> (r: rust_decimal::Decimal)
    ensures
        Some(r) == spec_parse_decimal(seq!['0']),
{
    rust_decimal::Decimal::ZERO
}

/// The zero decimal: what `"0"` parses to.
pub open spec fn spec_decimal_zero() -> rust_decimal::Decimal {
    spec_parse_decimal(seq!['0'])->0
}

/// What a raw text field becomes: its parse after separator stripping, or
/// zero when it cannot be parsed.
pub open spec fn spec_field_or_zero(s: Seq<char>) -> rust_decimal::Decimal {
    match spec_parse_decimal(stripped(s)) {
        Option::Some(d) => d,
        Option::None => spec_decimal_zero(),
    }
}

/// Strip separators and parse one raw field, falling back to zero.
fn field_or_zero(s: &String) -> (r: rust_decimal::Decimal)
    ensures
        r == spec_field_or_zero(s@),
{
    let cleaned = crate::text::strip_separators(s.as_str());
    match parse_decimal(cleaned.as_str()) {
        Some(d) => d,
        None => decimal_zero(),
    }
}

/// One security's revenue figures for one month. Identity in the store is
/// (security code, month key); the other columns are overwritten on
/// conflict.
#[derive(Clone, Debug)]
pub struct Revenue {
    pub security_code: String,
    pub monthly: rust_decimal::Decimal,
    pub last_month: rust_decimal::Decimal,
    pub last_year_this_month: rust_decimal::Decimal,
    pub monthly_accumulated: rust_decimal::Decimal,
    pub last_year_monthly_accumulated: rust_decimal::Decimal,
    pub compared_with_last_month: rust_decimal::Decimal,
    pub compared_with_last_year_same_month: rust_decimal::Decimal,
    pub accumulated_compared_with_last_year: rust_decimal::Decimal,
    pub avg_price: rust_decimal::Decimal,
    pub lowest_price: rust_decimal::Decimal,
    pub highest_price: rust_decimal::Decimal,
    /// The month this row belongs to, keyed `year * 100 + month`.
    pub date: i64,
    /// When this row was built, in epoch seconds.
    pub create_time: i64,
}

impl Revenue {
    /// All columns zero.
    pub open spec fn spec_is_blank(self) -> bool {
        &&& self.security_code@.len() == 0
        &&& self.monthly == spec_decimal_zero()
        &&& self.last_month == spec_decimal_zero()
        &&& self.last_year_this_month == spec_decimal_zero()
        &&& self.monthly_accumulated == spec_decimal_zero()
        &&& self.last_year_monthly_accumulated == spec_decimal_zero()
        &&& self.compared_with_last_month == spec_decimal_zero()
        &&& self.compared_with_last_year_same_month == spec_decimal_zero()
        &&& self.accumulated_compared_with_last_year == spec_decimal_zero()
        &&& self.avg_price == spec_decimal_zero()
        &&& self.lowest_price == spec_decimal_zero()
        &&& self.highest_price == spec_decimal_zero()
        &&& self.date == 0
    }

    /// A blank row, stamped with the wall clock.
    pub fn new() -> (r: Revenue)
        ensures
            r.spec_is_blank(),
    {
        let zero = decimal_zero();
        Revenue {
            security_code: String::new(),
            monthly: zero,
            last_month: zero,
            last_year_this_month: zero,
            monthly_accumulated: zero,
            last_year_monthly_accumulated: zero,
            compared_with_last_month: zero,
            compared_with_last_year_same_month: zero,
            accumulated_compared_with_last_year: zero,
            avg_price: zero,
            lowest_price: zero,
            highest_price: zero,
            date: 0,
            create_time: crate::dates::now_unix_seconds(),
        }
    }

    /// Build a row from one raw text row of the monthly revenue source.
    /// The columns of the wire format are, in order: security code, name,
    /// monthly, last month, last year this month, change against last
    /// month, change against the same month last year, accumulated,
    /// last year accumulated, change of the accumulated figures.
    pub fn from_fields(item: &Vec<String>) -> (r: Revenue)
        requires
            item@.len() >= 10,
        ensures
            r.security_code@ == item@[0]@,
            r.monthly == spec_field_or_zero(item@[2]@),
            r.last_month == spec_field_or_zero(item@[3]@),
            r.last_year_this_month == spec_field_or_zero(item@[4]@),
            r.compared_with_last_month == spec_field_or_zero(item@[5]@),
            r.compared_with_last_year_same_month == spec_field_or_zero(item@[6]@),
            r.monthly_accumulated == spec_field_or_zero(item@[7]@),
            r.last_year_monthly_accumulated == spec_field_or_zero(item@[8]@),
            r.accumulated_compared_with_last_year == spec_field_or_zero(item@[9]@),
            r.avg_price == spec_decimal_zero(),
            r.lowest_price == spec_decimal_zero(),
            r.highest_price == spec_decimal_zero(),
            r.date == 0,
    {
        let mut e = Revenue::new();
        e.security_code = item[0].clone();
        e.monthly = field_or_zero(&item[2]);
        e.last_month = field_or_zero(&item[3]);
        e.last_year_this_month = field_or_zero(&item[4]);
        e.monthly_accumulated = field_or_zero(&item[7]);
        e.last_year_monthly_accumulated = field_or_zero(&item[8]);
        e.compared_with_last_month = field_or_zero(&item[5]);
        e.compared_with_last_year_same_month = field_or_zero(&item[6]);
        e.accumulated_compared_with_last_year = field_or_zero(&item[9]);
        e
    }

    /// A field-for-field copy.
    pub fn duplicate(&self) -> (r: Revenue)
        ensures
            r.security_code@ == self.security_code@,
            r.monthly == self.monthly,
            r.last_month == self.last_month,
            r.last_year_this_month == self.last_year_this_month,
            r.monthly_accumulated == self.monthly_accumulated,
            r.last_year_monthly_accumulated == self.last_year_monthly_accumulated,
            r.compared_with_last_month == self.compared_with_last_month,
            r.compared_with_last_year_same_month == self.compared_with_last_year_same_month,
            r.accumulated_compared_with_last_year == self.accumulated_compared_with_last_year,
            r.avg_price == self.avg_price,
            r.lowest_price == self.lowest_price,
            r.highest_price == self.highest_price,
            r.date == self.date,
            r.create_time == self.create_time,
    {
        Revenue {
            security_code: self.security_code.clone(),
            monthly: self.monthly,
            last_month: self.last_month,
            last_year_this_month: self.last_year_this_month,
            monthly_accumulated: self.monthly_accumulated,
            last_year_monthly_accumulated: self.last_year_monthly_accumulated,
            compared_with_last_month: self.compared_with_last_month,
            compared_with_last_year_same_month: self.compared_with_last_year_same_month,
            accumulated_compared_with_last_year: self.accumulated_compared_with_last_year,
            avg_price: self.avg_price,
            lowest_price: self.lowest_price,
            highest_price: self.highest_price,
            date: self.date,
            create_time: self.create_time,
        }
    }
}

impl Default for Revenue {
    /// A blank row.
    fn default() -> (r: Revenue)
        ensures
            r.spec_is_blank(),
    {
        Revenue::new()
    }
}

} // verus!
