//! Dates, digit parsing and the revenue field mapping, on known values.

use rust_decimal::Decimal;
use std::str::FromStr;

use stock_crawler::config::{App, Afraid, Bot, EnvOverrides, PostgreSQL, Telegram, parse_port};
use stock_crawler::dates::{
    checked_civil, day_of_week, format_ymd, is_leap_year, is_weekend, last_two_month_keys,
    sub_days, today_local, CivilDate,
};
use stock_crawler::revenue::Revenue;
use stock_crawler::text::{parse_digits, strip_separators};

fn date(year: i32, month: u8, day: u8) -> CivilDate {
    CivilDate { year, month, day }
}

#[test]
fn digit_parsing_is_exact() {
    assert_eq!(parse_digits("0"), Some(0));
    assert_eq!(parse_digits("042"), Some(42));
    assert_eq!(parse_digits("999999999"), Some(999_999_999));
    assert_eq!(parse_digits(""), None);
    assert_eq!(parse_digits("1234567890"), None, "ten digits are out of scope");
    assert_eq!(parse_digits("12a"), None);
    assert_eq!(parse_digits("-5"), None);
}

#[test]
fn separators_are_stripped_in_order() {
    assert_eq!(strip_separators("4,075, 1"), "40751");
    assert_eq!(strip_separators("  "), "");
    assert_eq!(strip_separators("no-separators"), "no-separators");
}

#[test]
fn known_weekdays() {
    // 2023-04-20 was a Thursday; 2023-04-22 a Saturday; 2000-01-01 a Saturday
    assert_eq!(day_of_week(&date(2023, 4, 20)), 4);
    assert_eq!(day_of_week(&date(2023, 4, 22)), 6);
    assert_eq!(day_of_week(&date(2000, 1, 1)), 6);
    assert_eq!(day_of_week(&date(1970, 1, 1)), 4);
    assert!(is_weekend(&date(2023, 4, 22)));
    assert!(is_weekend(&date(2023, 4, 23)));
    assert!(!is_weekend(&date(2023, 4, 24)));
}

#[test]
fn leap_years_and_validity() {
    assert!(is_leap_year(2000));
    assert!(!is_leap_year(1900));
    assert!(is_leap_year(2024));
    assert!(!is_leap_year(2023));
    assert!(checked_civil(2024, 2, 29).is_some());
    assert!(checked_civil(2023, 2, 29).is_none());
    assert!(checked_civil(2023, 13, 1).is_none());
    assert!(checked_civil(2023, 0, 1).is_none());
    assert!(checked_civil(0, 1, 1).is_none());
    assert!(checked_civil(10000, 1, 1).is_none());
}

#[test]
fn stepping_back_thirty_days() {
    // the daily money-history window opens thirty days earlier
    assert_eq!(sub_days(&date(2023, 8, 4), 30), date(2023, 7, 5));
    assert_eq!(sub_days(&date(2024, 3, 1), 30), date(2024, 1, 31));
    assert_eq!(sub_days(&date(2023, 3, 1), 30), date(2023, 1, 30));
    assert_eq!(sub_days(&date(2023, 1, 5), 30), date(2022, 12, 6));
    assert_eq!(sub_days(&date(2023, 8, 4), 0), date(2023, 8, 4));
}

#[test]
fn dates_format_as_ymd() {
    assert_eq!(format_ymd(&date(2023, 8, 4)), "2023-08-04");
    assert_eq!(format_ymd(&date(1999, 12, 31)), "1999-12-31");
}

#[test]
fn month_keys_of_the_two_previous_months() {
    assert_eq!(last_two_month_keys(2023, 12), (202311, 202310));
    assert_eq!(last_two_month_keys(2023, 10), (202309, 202308));
    assert_eq!(last_two_month_keys(2024, 1), (202312, 202311));
    assert_eq!(last_two_month_keys(2024, 2), (202401, 202312));
}

#[test]
fn the_local_clock_reads_as_a_valid_date() {
    let today = today_local().expect("the clock is within the working range");
    assert!(today.year >= 2020);
    assert!((1..=12).contains(&today.month));
    assert!((1..=31).contains(&today.day));
}

#[test]
fn revenue_fields_map_by_column() {
    // columns: code, name, monthly, last month, last year this month,
    // change vs last month, change vs same month last year, accumulated,
    // last year accumulated, change of accumulated
    let row: Vec<String> = vec![
        "2330", "tsmc", "4,075", "3,900", "3,500", "4.49", "16.43", "48,000", "41,000", "17.07",
    ]
    .into_iter()
    .map(|s| s.to_string())
    .collect();
    let rev = Revenue::from_fields(&row);
    assert_eq!(rev.security_code, "2330");
    assert_eq!(rev.monthly, Decimal::from_str("4075").unwrap());
    assert_eq!(rev.last_month, Decimal::from_str("3900").unwrap());
    assert_eq!(rev.last_year_this_month, Decimal::from_str("3500").unwrap());
    assert_eq!(rev.compared_with_last_month, Decimal::from_str("4.49").unwrap());
    assert_eq!(rev.compared_with_last_year_same_month, Decimal::from_str("16.43").unwrap());
    assert_eq!(rev.monthly_accumulated, Decimal::from_str("48000").unwrap());
    assert_eq!(rev.last_year_monthly_accumulated, Decimal::from_str("41000").unwrap());
    assert_eq!(rev.accumulated_compared_with_last_year, Decimal::from_str("17.07").unwrap());
    assert_eq!(rev.avg_price, Decimal::ZERO);
    assert_eq!(rev.date, 0);
}

#[test]
fn unparsable_revenue_fields_fall_back_to_zero() {
    let row: Vec<String> = vec!["2330", "tsmc", "n/a", "", "-", "x", "x", "x", "x", "x"]
        .into_iter()
        .map(|s| s.to_string())
        .collect();
    let rev = Revenue::from_fields(&row);
    assert_eq!(rev.monthly, Decimal::ZERO);
    assert_eq!(rev.last_month, Decimal::ZERO);
    assert_eq!(rev.last_year_this_month, Decimal::ZERO);
}

#[test]
fn revenue_duplicate_copies_every_field() {
    let row: Vec<String> = vec![
        "2330", "tsmc", "4,075", "3,900", "3,500", "4.49", "16.43", "48,000", "41,000", "17.07",
    ]
    .into_iter()
    .map(|s| s.to_string())
    .collect();
    let rev = Revenue::from_fields(&row);
    let copy = rev.duplicate();
    assert_eq!(copy.security_code, rev.security_code);
    assert_eq!(copy.monthly, rev.monthly);
    assert_eq!(copy.last_month, rev.last_month);
    assert_eq!(copy.last_year_this_month, rev.last_year_this_month);
    assert_eq!(copy.monthly_accumulated, rev.monthly_accumulated);
    assert_eq!(copy.last_year_monthly_accumulated, rev.last_year_monthly_accumulated);
    assert_eq!(copy.compared_with_last_month, rev.compared_with_last_month);
    assert_eq!(copy.compared_with_last_year_same_month, rev.compared_with_last_year_same_month);
    assert_eq!(copy.accumulated_compared_with_last_year, rev.accumulated_compared_with_last_year);
    assert_eq!(copy.avg_price, rev.avg_price);
    assert_eq!(copy.lowest_price, rev.lowest_price);
    assert_eq!(copy.highest_price, rev.highest_price);
    assert_eq!(copy.date, rev.date);
    assert_eq!(copy.create_time, rev.create_time);
}

#[test]
fn blank_revenue_rows() {
    let rev = Revenue::new();
    assert_eq!(rev.security_code, "");
    assert_eq!(rev.monthly, Decimal::ZERO);
    assert_eq!(rev.date, 0);
    let def = Revenue::default();
    assert_eq!(def.monthly, Decimal::ZERO);
}

#[test]
fn ports_parse_exactly_as_signed_integers() {
    assert_eq!(parse_port("5433"), 5433);
    assert_eq!(parse_port("abc"), 5432);
    assert_eq!(parse_port(""), 5432);
    assert_eq!(parse_port("70000"), 70000, "any parsed value wins, as stored");
    assert_eq!(parse_port("-1"), -1);
    assert_eq!(parse_port("+6000"), 6000);
    assert_eq!(parse_port("2147483647"), 2147483647);
    assert_eq!(parse_port("-2147483648"), -2147483648);
    assert_eq!(parse_port("2147483648"), 5432, "overflow does not parse");
    assert_eq!(parse_port("-2147483649"), 5432, "underflow does not parse");
    assert_eq!(parse_port("12a"), 5432);
    assert_eq!(parse_port("-"), 5432);
    assert_eq!(parse_port("0012"), 12);
}

#[test]
fn environment_values_override_file_values() {
    let base = App {
        afraid: Afraid {
            token: "file-token".to_string(),
            url: "u".to_string(),
            path: "p".to_string(),
        },
        postgresql: PostgreSQL {
            host: "file-host".to_string(),
            port: 5432,
            user: "file-user".to_string(),
            password: "file-pass".to_string(),
            db: "file-db".to_string(),
        },
        bot: Bot {
            telegram: Telegram {
                allowed: std::collections::HashMap::new(),
                token: "file-tg".to_string(),
            },
        },
    };
    let env = EnvOverrides {
        afraid_token: None,
        postgresql_host: Some("env-host".to_string()),
        postgresql_port: Some("6000".to_string()),
        postgresql_user: None,
        postgresql_password: None,
        postgresql_db: None,
        telegram_allowed: None,
        telegram_token: Some("env-tg".to_string()),
    };
    let merged = base.override_with(env);
    assert_eq!(merged.afraid.token, "file-token", "unset variables change nothing");
    assert_eq!(merged.postgresql.host, "env-host");
    assert_eq!(merged.postgresql.port, 6000);
    assert_eq!(merged.postgresql.user, "file-user");
    assert_eq!(merged.bot.telegram.token, "env-tg");
}

#[test]
fn configuration_from_environment_values_alone() {
    let mut allowed = std::collections::HashMap::new();
    allowed.insert(123i64, "QQ".to_string());
    allowed.insert(456i64, "QQ".to_string());
    let app = App::from_values(
        "a-token".to_string(),
        "db-host".to_string(),
        None,
        "user".to_string(),
        "pass".to_string(),
        "stocks".to_string(),
        allowed,
        "tg-token".to_string(),
    );
    assert_eq!(app.postgresql.port, 5432, "the default port stands when none is given");
    assert_eq!(app.afraid.url, "");
    assert_eq!(app.bot.telegram.allowed.len(), 2);
    assert_eq!(app.bot.telegram.allowed.get(&123), Some(&"QQ".to_string()));
}
