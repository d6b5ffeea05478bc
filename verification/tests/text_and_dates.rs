use epd_dashboard::dates::{
    days_in_month, db_date, db_hour, db_stamp, fmt_day, local_datetime, month_abbr, prev_day,
    rfc3339, weekday, ymd, Tm,
};
use epd_dashboard::draw::{compass_point, hhmm, truncate};
use epd_dashboard::text::{parse_field, str_get, str_less};

fn tm(year: i32, mon: i32, mday: i32, hour: i32, min: i32, sec: i32, wday: i32) -> Tm {
    Tm {
        tm_sec: sec,
        tm_min: min,
        tm_hour: hour,
        tm_mday: mday,
        tm_mon: mon,
        tm_year: year,
        tm_wday: wday,
        tm_yday: 0,
        tm_isdst: 0,
    }
}

#[test]
fn weekday_of_known_dates() {
    assert_eq!(weekday("2026-08-20"), "Thu");
    assert_eq!(weekday("2026-08-24"), "Mon");
    assert_eq!(weekday("2000-01-01"), "Sat");
    assert_eq!(weekday("2024-02-29"), "Thu");
    assert_eq!(weekday("1999-12-31"), "Fri");
}

#[test]
fn weekday_defaults_for_malformed_fields() {
    // Every field missing: 2000-01-01, a Saturday.
    assert_eq!(weekday(""), "Sat");
    assert_eq!(weekday("abcd-xx-yy"), "Sat");
}

#[test]
fn month_abbreviations() {
    assert_eq!(month_abbr(1), "Jan");
    assert_eq!(month_abbr(9), "Sep");
    assert_eq!(month_abbr(12), "Dec");
    assert_eq!(month_abbr(0), "");
    assert_eq!(month_abbr(13), "");
}

#[test]
fn month_lengths() {
    assert_eq!(days_in_month(2026, 1), 31);
    assert_eq!(days_in_month(2026, 4), 30);
    assert_eq!(days_in_month(2026, 2), 28);
    assert_eq!(days_in_month(2024, 2), 29);
    assert_eq!(days_in_month(1900, 2), 28);
    assert_eq!(days_in_month(2000, 2), 29);
    assert_eq!(days_in_month(2026, 13), 30);
}

#[test]
fn previous_days() {
    assert_eq!(prev_day("2026-08-21"), "2026-08-20");
    assert_eq!(prev_day("2026-03-01"), "2026-02-28");
    assert_eq!(prev_day("2024-03-01"), "2024-02-29");
    assert_eq!(prev_day("2026-01-01"), "2025-12-31");
    assert_eq!(prev_day("2026-05-01"), "2026-04-30");
    assert_eq!(prev_day(""), "1999-12-31");
}

#[test]
fn day_labels() {
    assert_eq!(fmt_day("2026-08-24", "2026-08-20"), "Mon 24");
    assert_eq!(fmt_day("2026-09-01", "2026-08-20"), "Tue 1 Sep");
    assert_eq!(fmt_day("2026-08-05", "2026-08-20"), "Wed 5");
    assert_eq!(fmt_day("2026-08-00", "2026-08-20"), "Fri 00");
}

#[test]
fn local_datetime_strings() {
    let t = tm(126, 7, 20, 14, 35, 0, 3);
    let (date, time) = local_datetime(&t);
    assert_eq!(date, "Wed, 20 Aug 2026");
    assert_eq!(time, "14:35");
    let t = tm(126, 0, 5, 7, 3, 0, 1);
    let (date, time) = local_datetime(&t);
    assert_eq!(date, "Mon, 05 Jan 2026");
    assert_eq!(time, "07:03");
}

#[test]
fn db_timestamps() {
    let t = tm(126, 7, 20, 16, 5, 9, 4);
    assert_eq!(db_date(&t), "260820");
    assert_eq!(db_hour(&t), "16");
    assert_eq!(db_stamp(&t), "2608201605");
    assert_eq!(ymd(&t), "2026-08-20");
    assert_eq!(rfc3339(&t), "2026-08-20T16:05:09Z");
}

#[test]
fn negative_fields_keep_their_sign() {
    let t = tm(-1905, 0, -3, 0, 0, 0, 0);
    assert_eq!(ymd(&t), "-005-01--3");
}

#[test]
fn truncation() {
    assert_eq!(truncate("Hello World", 8), "Hello...");
    assert_eq!(truncate("Hi", 5), "Hi");
    assert_eq!(truncate("Hello", 5), "Hello");
    assert_eq!(truncate("abcdef", 3), "...");
    assert_eq!(truncate("abcdef", 2), "..");
    assert_eq!(truncate("abcdef", 1), ".");
    assert_eq!(truncate("abcdef", 0), "");
    assert_eq!(truncate("ab", 2), "ab");
    assert_eq!(truncate("Nuernberg Hbf", 8), "Nuern...");
    assert_eq!(truncate("Nürnberg Hbf", 6), "Nür...");
}

#[test]
fn hhmm_from_iso() {
    assert_eq!(hhmm("2026-08-20T14:35:00+02:00"), "14:35");
    assert_eq!(hhmm("short"), "short");
    assert_eq!(hhmm("2026-08-20T14:35"), "14:35");
}

#[test]
fn compass_labels() {
    assert_eq!(compass_point(0), "N");
    assert_eq!(compass_point(1), "NE");
    assert_eq!(compass_point(4), "S");
    assert_eq!(compass_point(8), "N");
    assert_eq!(compass_point(9), "NE");
    assert_eq!(compass_point(-1), "NW");
}

#[test]
fn slicing_respects_char_boundaries() {
    assert_eq!(str_get("abcdef", 1, 3), Some("bc"));
    assert_eq!(str_get("abc", 2, 5), None);
    assert_eq!(str_get("äb", 1, 2), None);
    assert_eq!(str_get("äb", 0, 2), Some("ä"));
    assert_eq!(str_get("abc", 2, 1), None);
}

#[test]
fn field_parsing() {
    assert_eq!(parse_field("2026-08-20", 0, 4, i32::MIN as i64, i32::MAX as i64, 2000), 2026);
    assert_eq!(parse_field("+026", 0, 4, i32::MIN as i64, i32::MAX as i64, 7), 26);
    assert_eq!(parse_field("-026", 0, 4, i32::MIN as i64, i32::MAX as i64, 7), -26);
    assert_eq!(parse_field("-026", 0, 4, 0, i64::MAX, 7), 7);
    assert_eq!(parse_field("20a6", 0, 4, i32::MIN as i64, i32::MAX as i64, 7), 7);
    assert_eq!(parse_field("+", 0, 1, i32::MIN as i64, i32::MAX as i64, 7), 7);
}

#[test]
fn string_order_is_bytewise() {
    assert!(str_less("2608201600", "2608201610"));
    assert!(!str_less("2608201610", "2608201610"));
    assert!(str_less("26", "2608"));
    assert!(!str_less("b", "a"));
    assert!(str_less("z", "ä"));
}

#[test]
fn consecutive_days_have_consecutive_weekdays() {
    let names = ["Sun", "Mon", "Tue", "Wed", "Thu", "Fri", "Sat"];
    // 2026-08-01 is a Saturday.
    for d in 1..=31 {
        let date = format!("2026-08-{:02}", d);
        assert_eq!(weekday(&date), names[(5 + d) % 7]);
    }
}

#[test]
fn formatted_dates_read_back() {
    let s = ymd(&tm(126, 7, 5, 0, 0, 0, 0));
    assert_eq!(s, "2026-08-05");
    assert_eq!(parse_field(&s, 0, 4, i32::MIN as i64, i32::MAX as i64, 0), 2026);
    assert_eq!(parse_field(&s, 5, 7, i32::MIN as i64, i32::MAX as i64, 0), 8);
    assert_eq!(parse_field(&s, 8, 10, i32::MIN as i64, i32::MAX as i64, 0), 5);
    let neg = ymd(&tm(-1905, 0, 1, 0, 0, 0, 0));
    assert_eq!(neg, "-005-01-01");
    assert_eq!(parse_field(&neg, 0, 4, i32::MIN as i64, i32::MAX as i64, 0), -5);
}

#[test]
fn db_stamps_sort_by_time() {
    // 2026-08-20 16:32 and neighbours, as the C library fills `tm`.
    let base = tm(126, 7, 20, 16, 32, 0, 4);
    assert_eq!(db_stamp(&base), "2608201632");
    let later = [
        tm(126, 7, 20, 16, 33, 0, 4),
        tm(126, 7, 20, 17, 0, 0, 4),
        tm(126, 7, 21, 0, 0, 0, 5),
        tm(126, 8, 1, 0, 0, 0, 2),
        tm(127, 0, 1, 0, 0, 0, 5),
    ];
    for t in later.iter() {
        assert!(str_less(&db_stamp(&base), &db_stamp(t)));
        assert!(!str_less(&db_stamp(t), &db_stamp(&base)));
    }
    assert!(!str_less(&db_stamp(&base), &db_stamp(&tm(126, 7, 20, 16, 32, 59, 4))));
    assert_eq!(db_stamp(&base), db_stamp(&tm(126, 7, 20, 16, 32, 59, 4)));
}
