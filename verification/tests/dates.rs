use ncheap::api::xml::{days_in_month, to_iso_date};
use ncheap::api::{epoch_seconds, unix_now};
use ncheap::commands::audit::{days_since_epoch, parse_iso_days, today_days};

#[test]
fn dates_normalize_to_iso_8601() {
    assert_eq!(to_iso_date("08/20/2026"), "2026-08-20");
    assert_eq!(to_iso_date("4/30/2021"), "2021-04-30");
    assert_eq!(to_iso_date("4/30/2021 11:31:13 AM"), "2021-04-30");
}

#[test]
fn unrecognized_dates_pass_through_verbatim() {
    for odd in [
        "",
        "2026-08-20",
        "13/40/2026",
        "soon",
        "1/2",
        "02/30/2026",
        "02/29/2025",
    ] {
        assert_eq!(to_iso_date(odd), odd, "must not mangle {odd:?}");
    }
    // A real leap day still normalizes.
    assert_eq!(to_iso_date("02/29/2024"), "2024-02-29");
}

#[test]
fn normalizing_twice_changes_nothing() {
    for s in ["08/20/2026", "4/30/2021 11:31:13 AM", "soon", "2024-02-29", ""] {
        let once = to_iso_date(s);
        assert_eq!(to_iso_date(&once), once);
    }
}

#[test]
fn years_before_1000_and_month_zero_pass_through() {
    assert_eq!(to_iso_date("01/01/999"), "01/01/999");
    assert_eq!(to_iso_date("00/10/2020"), "00/10/2020");
    assert_eq!(to_iso_date("+1/05/2020"), "2020-01-05");
    assert_eq!(to_iso_date("12/31/9999"), "9999-12-31");
}

#[test]
fn month_lengths_follow_the_gregorian_calendar() {
    assert_eq!(days_in_month(2023, 1), 31);
    assert_eq!(days_in_month(2023, 4), 30);
    assert_eq!(days_in_month(2023, 2), 28);
    assert_eq!(days_in_month(2024, 2), 29);
    assert_eq!(days_in_month(1900, 2), 28);
    assert_eq!(days_in_month(2000, 2), 29);
    assert_eq!(days_in_month(2000, 13), 0);
}

#[test]
fn iso_dates_count_days_from_the_epoch() {
    assert_eq!(parse_iso_days("1970-01-01"), Some(0));
    assert_eq!(parse_iso_days("1970-01-02"), Some(1));
    assert_eq!(parse_iso_days("2000-03-01"), Some(11017));
    assert_eq!(parse_iso_days("2024-02-29"), Some(19782));
    assert_eq!(parse_iso_days("1969-12-31"), Some(-1));
}

#[test]
fn malformed_iso_dates_do_not_parse() {
    assert_eq!(parse_iso_days(""), None);
    assert_eq!(parse_iso_days("soon"), None);
    assert_eq!(parse_iso_days("2024-13-01"), None);
    assert_eq!(parse_iso_days("2024-00-10"), None);
    assert_eq!(parse_iso_days("2024-01-32"), None);
    assert_eq!(parse_iso_days("08/20/2026"), None);
    assert_eq!(parse_iso_days("2024-01"), None);
    assert_eq!(parse_iso_days("2024-01--5"), None);
}

#[test]
fn epoch_seconds_counts_a_clock_before_the_epoch_as_zero() {
    assert_eq!(epoch_seconds(Some(1_700_000_000)), 1_700_000_000);
    assert_eq!(epoch_seconds(None), 0);
}

#[test]
fn days_since_epoch_rounds_down_to_whole_days() {
    assert_eq!(days_since_epoch(0), 0);
    assert_eq!(days_since_epoch(86_399), 0);
    assert_eq!(days_since_epoch(86_400), 1);
    // 2021-04-30T11:31:13Z
    assert_eq!(days_since_epoch(1_619_782_273), parse_iso_days("2021-04-30").unwrap() as i64);
}

#[test]
fn today_is_the_day_of_the_clock() {
    let before = unix_now();
    let today = today_days();
    let after = unix_now();
    assert!(days_since_epoch(before) <= today && today <= days_since_epoch(after));
}
