use chrono::{DateTime, Datelike, NaiveDate, TimeZone, Utc};
use codex_usage_tray::time::{
    date_from_number, date_text, format_countdown, format_reset_countdown,
    format_reset_countdown_at, parse_datetime, Date, Timestamp, EPOCH_DAY, MAX_DAY, MAX_SECS,
    MIN_DAY, MIN_SECS,
};

fn at(secs: i64) -> Timestamp {
    Timestamp { secs, nanos: 0 }
}

#[test]
fn countdowns() {
    assert_eq!(format_countdown(i64::MIN), "now");
    assert_eq!(format_countdown(-1), "now");
    assert_eq!(format_countdown(59), "now");
    assert_eq!(format_countdown(60), "1m");
    assert_eq!(format_countdown(3_599), "59m");
    assert_eq!(format_countdown(3_600), "1h 0m");
    assert_eq!(format_countdown(86_399), "23h 59m");
    assert_eq!(format_countdown(86_400), "1d");
    assert_eq!(format_countdown(86_400 + 3_599), "1d");
    assert_eq!(format_countdown(90_000), "1d 1h");
    assert_eq!(format_countdown(604_800), "7d");
    assert_eq!(format_countdown(i64::MAX), "106751991167300d 15h");
}

#[test]
fn countdowns_to_a_reset() {
    assert_eq!(format_reset_countdown_at(at(100), at(40)), "1m");
    assert_eq!(format_reset_countdown_at(at(100), at(41)), "now");
    let almost = Timestamp { secs: 40, nanos: 1 };
    assert_eq!(format_reset_countdown_at(at(100), almost), "now");
    assert_eq!(format_reset_countdown_at(at(0), at(100)), "now");
    assert_eq!(format_reset_countdown_at(at(MAX_SECS), at(MIN_SECS)), "191491528d 23h");
    assert_eq!(format_reset_countdown(at(0)), "now");
    let far = Utc::now().timestamp() + 86_400 * 3 + 1_800;
    assert_eq!(format_reset_countdown(at(far)), "3d");
}

#[test]
fn leap_seconds_count_as_chrono_counts_them() {
    let leap = Timestamp { secs: 1_483_228_799, nanos: 1_500_000_000 };
    let instants = [
        leap,
        at(1_483_228_799),
        Timestamp { secs: 1_483_228_799, nanos: 999_999_999 },
        at(1_483_228_800),
        at(1_483_228_739),
        at(1_483_228_859),
        at(1_483_228_859 + 86_400),
        at(1_483_200_000),
    ];
    let chrono = |t: Timestamp| Utc.timestamp_opt(t.secs, t.nanos).unwrap();
    for a in instants {
        for b in instants {
            let secs = (chrono(a) - chrono(b)).num_seconds();
            assert_eq!(format_reset_countdown_at(a, b), format_countdown(secs), "{:?} {:?}", a, b);
        }
    }
}

#[test]
fn instants_from_text() {
    assert_eq!(parse_datetime("2026-06-16T12:00:00Z"), Some(at(1_781_611_200)));
    assert_eq!(parse_datetime("2026-06-16T12:00:00+02:00"), Some(at(1_781_604_000)));
    assert_eq!(
        parse_datetime("1969-12-31T23:59:59.25Z"),
        Some(Timestamp { secs: -1, nanos: 250_000_000 })
    );
    assert_eq!(
        parse_datetime("2016-12-31T23:59:60Z"),
        Some(Timestamp { secs: 1_483_228_799, nanos: 1_000_000_000 })
    );
    assert_eq!(parse_datetime("2026-06-16"), None);
    assert_eq!(parse_datetime(""), None);
}

#[test]
fn range_of_instants_and_days() {
    assert_eq!(MIN_SECS, DateTime::<Utc>::MIN_UTC.timestamp());
    assert_eq!(MAX_SECS, DateTime::<Utc>::MAX_UTC.timestamp());
    assert_eq!(MIN_DAY, NaiveDate::MIN.num_days_from_ce());
    assert_eq!(MAX_DAY, NaiveDate::MAX.num_days_from_ce());
    let epoch = NaiveDate::from_ymd_opt(1970, 1, 1).unwrap();
    assert_eq!(EPOCH_DAY, epoch.num_days_from_ce() as i64);
}

#[test]
fn days_of_instants() {
    for secs in [MIN_SECS, -86_401, -86_400, -1, 0, 86_399, 86_400, 1_781_611_200, MAX_SECS] {
        let day = Utc.timestamp_opt(secs, 0).unwrap().date_naive().num_days_from_ce();
        assert_eq!(at(secs).day(), day, "{}", secs);
    }
}

#[test]
fn dates_of_days() {
    let check = |number: i32| {
        let expected = NaiveDate::from_num_days_from_ce_opt(number).unwrap();
        let date = date_from_number(number);
        assert_eq!(
            date,
            Date { year: expected.year(), month: expected.month(), day: expected.day() }
        );
        assert_eq!(date_text(date), expected.format("%Y-%m-%d").to_string());
    };
    for number in 735_000..740_000 {
        check(number);
    }
    for number in -800..800 {
        check(number);
    }
    for number in [MIN_DAY, MIN_DAY + 1, MAX_DAY - 1, MAX_DAY, 3_652_059, 3_652_060] {
        check(number);
    }
}

#[test]
fn texts_of_dates() {
    assert_eq!(date_text(Date { year: 2026, month: 6, day: 16 }), "2026-06-16");
    assert_eq!(date_text(Date { year: 33, month: 12, day: 1 }), "0033-12-01");
    assert_eq!(date_text(Date { year: -5, month: 1, day: 31 }), "-0005-01-31");
    assert_eq!(date_text(Date { year: 10_000, month: 1, day: 1 }), "+10000-01-01");
}
