//! Dates, calendars and warm-ups.
use tradingflow_agents::time::{
    DAY, Duration, Instant, calendar, calendar_as_of, calendar_so_far, calendar_so_far_as_of,
    day_calendar, day_calendar_so_far, format_date, format_date_or, horizon_of, instant_of, now,
    parse_any_date, parse_date, present_calendar, warm_up_from,
};

fn at(days: i64) -> Instant {
    Instant { nanos: days * DAY }
}

#[test]
fn dates_are_read_as_their_midnights() {
    assert_eq!(parse_date("1970-01-01"), Ok(at(0)));
    assert_eq!(parse_date("1970-01-02"), Ok(at(1)));
    assert_eq!(parse_date("1969-12-31"), Ok(at(-1)));
    assert_eq!(parse_date("2018-01-01"), Ok(at(17_532)));
    assert_eq!(parse_date("2020-02-29"), Ok(at(18_321)));
    assert_eq!(parse_date("1990-01-01"), Ok(at(7_305)));
}

#[test]
fn a_text_that_is_no_date_is_refused_with_the_message() {
    for text in ["2018-13-01", "2019-02-29", "yesterday", "", "2018-01-01x"] {
        let expected = chrono::NaiveDate::parse_from_str(text, "%Y-%m-%d").unwrap_err();
        assert_eq!(parse_date(text), Err(format!("{expected}")));
        assert_eq!(parse_any_date(text), Some(Err(format!("{expected}"))));
    }
}

#[test]
fn a_date_that_no_instant_names_is_told() {
    assert_eq!(parse_any_date("2262-04-11"), Some(Ok(at(106_751))));
    assert_eq!(parse_any_date("2262-04-12"), None);
    assert_eq!(parse_any_date("9999-12-31"), None);
    assert_eq!(parse_any_date("1677-09-22"), Some(Ok(at(-106_751))));
    assert_eq!(parse_any_date("0001-01-01"), None);
}

#[test]
fn instants_are_written_as_the_date_they_fall_on() {
    assert_eq!(format_date(at(0)), "1970-01-01");
    assert_eq!(format_date(Instant { nanos: DAY - 1 }), "1970-01-01");
    assert_eq!(format_date(Instant { nanos: -1 }), "1969-12-31");
    assert_eq!(format_date(at(18_321)), "2020-02-29");
    assert_eq!(format_date(Instant { nanos: i64::MAX }), "2262-04-11");
    assert_eq!(format_date(Instant { nanos: i64::MIN }), "1677-09-21");
    assert_eq!(format_date_or(Some(at(17_532)), "(none)"), "2018-01-01");
    assert_eq!(format_date_or(None, "(open)"), "(open)");
}

#[test]
fn a_written_date_is_read_back() {
    for days in [-106_751, -40_000, -1, 0, 1, 59, 60, 365, 11_016, 18_321, 106_751] {
        assert_eq!(parse_date(&format_date(at(days))), Ok(at(days)));
    }
}

#[test]
fn a_calendar_steps_up_to_its_end() {
    let step = Duration::from_days(30);
    assert_eq!(calendar(at(0), at(90), step), vec![at(0), at(30), at(60)]);
    assert_eq!(calendar(at(0), at(91), step), vec![at(0), at(30), at(60), at(90)]);
    assert_eq!(calendar(at(5), at(5), step), vec![]);
    assert_eq!(calendar(at(5), at(4), Duration::from_days(0)), vec![]);
    let late = Instant { nanos: i64::MAX - 1 };
    assert_eq!(calendar(late, Instant { nanos: i64::MAX }, step), vec![late]);
}

#[test]
fn a_calendar_runs_up_to_its_end() {
    assert_eq!(horizon_of(None, at(10)), at(10));
    assert_eq!(horizon_of(Some(at(7)), at(10)), at(7));
    assert_eq!(horizon_of(Some(at(12)), at(10)), at(12));
    assert_eq!(day_calendar(at(0), Some(at(12)), at(10), 5), vec![at(0), at(5), at(10)]);
    assert_eq!(day_calendar(at(0), None, at(10), 5), vec![at(0), at(5)]);
    assert_eq!(day_calendar(at(20), None, at(10), 0), vec![]);
    let ten: Vec<Instant> = (0..10).map(at).collect();
    assert_eq!(day_calendar(at(0), Some(at(10)), at(1), 1), ten);
}

#[test]
fn a_calendar_so_far_does_not_run_past_the_present() {
    assert_eq!(day_calendar_so_far(at(0), Some(at(12)), at(10), 5), vec![at(0), at(5)]);
    assert_eq!(day_calendar_so_far(at(0), Some(at(4)), at(10), 5), vec![at(0)]);
    assert_eq!(day_calendar_so_far(at(20), None, at(10), 0), vec![]);
    let whole = day_calendar(at(0), Some(at(9)), at(10), 2);
    assert_eq!(day_calendar_so_far(at(0), Some(at(9)), at(10), 2), whole);
}

#[test]
fn the_present_is_read_from_the_clock() {
    let present = now().unwrap();
    assert!(present.nanos > at(20_000).nanos);
    let past = present_calendar(at(0), Some(at(100)), 40).unwrap();
    assert_eq!(past, vec![at(0), at(40), at(80)]);
    assert_eq!(calendar_so_far(at(0), Some(at(100)), 40).unwrap(), past);
    let open = present_calendar(at(20_000), None, 1).unwrap();
    assert_eq!(open[0], at(20_000));
    assert!(open[open.len() - 1].nanos <= now().unwrap().nanos);
    let ahead = present_calendar(at(90_000), Some(at(90_003)), 2).unwrap();
    assert_eq!(ahead, vec![at(90_000), at(90_002)]);
    assert_eq!(calendar_so_far(at(90_000), Some(at(90_003)), 2), Some(vec![]));
}

#[test]
fn a_calendar_is_told_by_a_reading_of_the_clock() {
    assert_eq!(instant_of(Some(7)), Some(Instant { nanos: 7 }));
    assert_eq!(instant_of(None), None);
    let whole = Some(vec![at(0), at(5), at(10)]);
    assert_eq!(calendar_as_of(at(0), Some(at(12)), Some(at(10)), 5), whole);
    assert_eq!(calendar_as_of(at(0), Some(at(12)), None, 5), whole);
    assert_eq!(calendar_as_of(at(0), None, Some(at(10)), 5), Some(vec![at(0), at(5)]));
    assert_eq!(calendar_as_of(at(0), None, Some(at(0)), 5), Some(vec![]));
    assert_eq!(calendar_as_of(at(0), None, None, 5), None);
    let some = Some(vec![at(0), at(5)]);
    assert_eq!(calendar_so_far_as_of(at(0), Some(at(12)), Some(at(10)), 5), some);
    assert_eq!(calendar_so_far_as_of(at(0), None, Some(at(10)), 5), some);
    assert_eq!(calendar_so_far_as_of(at(0), Some(at(12)), None, 5), None);
    assert_eq!(calendar_so_far_as_of(at(0), None, None, 5), None);
}

#[test]
fn a_calendar_that_ends_at_once_needs_no_clock() {
    assert_eq!(calendar_as_of(at(3), Some(at(3)), None, 0), Some(vec![]));
    assert_eq!(calendar_as_of(at(3), Some(at(2)), Some(at(10)), 1), Some(vec![]));
    assert_eq!(present_calendar(at(3), Some(at(3)), 0), Some(vec![]));
    assert_eq!(present_calendar(at(3), Some(at(1)), 7), Some(vec![]));
    assert_eq!(calendar_so_far_as_of(at(3), Some(at(3)), None, 0), Some(vec![]));
    assert_eq!(calendar_so_far(at(3), Some(at(1)), 7), Some(vec![]));
}

#[test]
fn a_warm_up_comes_before_the_start() {
    assert_eq!(warm_up_from(at(1000), 400), at(600));
    assert_eq!(warm_up_from(at(0), 0), at(0));
    let first = Instant { nanos: i64::MIN };
    assert_eq!(warm_up_from(Instant { nanos: i64::MIN + 5 }, 1), first);
    let last = Instant { nanos: i64::MAX };
    assert_eq!(last.saturating_add(Duration::from_days(1)), last);
    assert_eq!(first.saturating_sub(Duration::from_days(1)), first);
}
