use join_lecture::time::parse_range;
use join_lecture::{ParseError, Time, TimeTable};

fn s(x: &str) -> String {
    x.to_string()
}

fn five_rows(row: &str) -> Vec<String> {
    vec![s(row), s(row), s(row), s(row), s(row)]
}

fn sample_model() -> TimeTable {
    TimeTable::from_sections(
        vec![s("9:00-9:50"), s("9:50-10:40")],
        five_rows("CS101,CS102"),
        vec![(s("CS101"), s("CS101"))],
        vec![],
    )
    .unwrap()
}

#[test]
fn range_contains_its_endpoints() {
    let a = Time::new(9, 0).unwrap();
    let b = Time::new(10, 30).unwrap();
    assert!(a.in_between((a, b)));
    assert!(b.in_between((a, b)));
    assert!(!Time::new(8, 59).unwrap().in_between((a, b)));
    assert!(!Time::new(10, 31).unwrap().in_between((a, b)));
}

#[test]
fn example_scenario_weekday_in_slot() {
    let t = sample_model();
    let now = Time::new(9, 10).unwrap();
    assert_eq!(t.resolve(now, 0), Some(s("CS101")));
}

#[test]
fn example_scenario_weekend() {
    let t = sample_model();
    let now = Time::new(9, 10).unwrap();
    assert_eq!(t.resolve(now, 5), None);
    assert_eq!(t.resolve(now, 6), None);
}

#[test]
fn example_scenario_outside_slots() {
    let t = sample_model();
    let now = Time::new(11, 0).unwrap();
    assert_eq!(t.resolve(now, 0), None);
}

#[test]
fn out_of_slot_ignores_exceptions() {
    let t = TimeTable::from_sections(
        vec![s("9:00-9:50")],
        five_rows("CS101"),
        vec![],
        vec![(s("PHY"), s("mon"), s("10:50-11:30"))],
    )
    .unwrap();
    let now = Time::new(11, 0).unwrap();
    assert_eq!(t.resolve(now, 0), None);
}

#[test]
fn first_declared_course_wins_shared_label() {
    let t = TimeTable::from_sections(
        vec![s("9:00-9:50")],
        five_rows("LAB"),
        vec![(s("AAA"), s("LAB,OTHER")), (s("BBB"), s("LAB"))],
        vec![],
    )
    .unwrap();
    let now = Time::new(9, 30).unwrap();
    assert_eq!(t.resolve(now, 2), Some(s("AAA")));
}

#[test]
fn exception_fills_in_after_courses() {
    let t = TimeTable::from_sections(
        vec![s("9:00-9:50")],
        five_rows("FREE"),
        vec![(s("CS101"), s("CS101"))],
        vec![(s("EXTRA"), s("wed"), s("9:00-9:50"))],
    )
    .unwrap();
    let now = Time::new(9, 30).unwrap();
    assert_eq!(t.resolve(now, 2), Some(s("EXTRA")));
    assert_eq!(t.resolve(now, 1), None);
}

#[test]
fn first_declared_exception_wins() {
    let t = TimeTable::from_sections(
        vec![s("9:00-9:50")],
        five_rows("FREE"),
        vec![],
        vec![
            (s("FIRST"), s("mon"), s("9:00-9:50")),
            (s("SECOND"), s("mon"), s("9:00-9:50")),
        ],
    )
    .unwrap();
    let now = Time::new(9, 10).unwrap();
    assert_eq!(t.resolve(now, 0), Some(s("FIRST")));
}

#[test]
fn round_trip_time_range() {
    let (a, b) = parse_range("9:00-10:30").unwrap();
    assert_eq!((a.hrs, a.min), (9, 0));
    assert_eq!((b.hrs, b.min), (10, 30));
    assert_eq!(parse_range("9:00-10:30"), Some((a, b)));
    assert_eq!(Time::parse(" 10 : 30 "), Some(b));
}

#[test]
fn reparsing_a_rendered_time_is_identity() {
    let one_digit_hour = Time::new(9, 5).unwrap();
    let rendered = format!("{}:{:02}", one_digit_hour.hrs, one_digit_hour.min);
    assert_eq!(rendered, "9:05");
    assert_eq!(Time::parse(&rendered), Some(one_digit_hour));
    let two_digit_hour = Time::new(23, 0).unwrap();
    let rendered = format!("{}:{:02}", two_digit_hour.hrs, two_digit_hour.min);
    assert_eq!(Time::parse(&rendered), Some(two_digit_hour));
}

#[test]
fn unrecognized_day_never_matches() {
    let t = TimeTable::from_sections(
        vec![s("9:00-9:50")],
        five_rows("FREE"),
        vec![],
        vec![(s("PHY"), s("xyz"), s("9:00-9:50"))],
    )
    .unwrap();
    let now = Time::new(9, 10).unwrap();
    for day in 0..5 {
        assert_eq!(t.resolve(now, day), None);
    }
}

#[test]
fn day_abbreviations_are_case_insensitive() {
    let t = TimeTable::from_sections(
        vec![s("9:00-9:50")],
        five_rows("FREE"),
        vec![],
        vec![(s("PHY"), s("THU"), s("9:00-9:50"))],
    )
    .unwrap();
    let now = Time::new(9, 10).unwrap();
    assert_eq!(t.resolve(now, 3), Some(s("PHY")));
    assert_eq!(t.resolve(now, 2), None);
}

#[test]
fn grid_label_is_trimmed_course_labels_are_not() {
    let t = TimeTable::from_sections(
        vec![s("9:00-9:50"), s("9:50-10:40")],
        five_rows(" CS101 , CS102 "),
        vec![(s("CS101"), s("CS101")), (s("CS102"), s("X, CS102"))],
        vec![],
    )
    .unwrap();
    assert_eq!(t.resolve(Time::new(9, 10).unwrap(), 0), Some(s("CS101")));
    // " CS102" (with its leading space) is not the trimmed label "CS102".
    assert_eq!(t.resolve(Time::new(10, 0).unwrap(), 0), None);
}

#[test]
fn time_construction_is_range_checked() {
    assert_eq!(Time::new(23, 59), Some(Time { hrs: 23, min: 59 }));
    assert_eq!(Time::new(24, 0), None);
    assert_eq!(Time::new(0, 60), None);
}

#[test]
fn malformed_times_are_rejected() {
    assert_eq!(Time::parse("ab:cd"), None);
    assert_eq!(Time::parse("900"), None);
    assert_eq!(Time::parse("25:00"), None);
    assert_eq!(Time::parse("9:75"), None);
    assert_eq!(parse_range("9:00"), None);
    let r = TimeTable::from_sections(
        vec![s("ab:cd-9:50")],
        five_rows("FREE"),
        vec![],
        vec![],
    );
    assert_eq!(r.err(), Some(ParseError::InvalidTimeFormat));
    let r = TimeTable::from_sections(
        vec![s("9:00-9:50")],
        five_rows("FREE"),
        vec![],
        vec![(s("PHY"), s("mon"), s("nine-ten"))],
    );
    assert_eq!(r.err(), Some(ParseError::InvalidTimeFormat));
}

#[test]
fn short_grids_are_rejected() {
    let r = TimeTable::from_sections(
        vec![s("9:00-9:50")],
        vec![s("A"), s("B"), s("C"), s("D")],
        vec![],
        vec![],
    );
    assert_eq!(r.err(), Some(ParseError::InvalidGridShape));
    let r = TimeTable::from_sections(
        vec![s("9:00-9:50"), s("9:50-10:40")],
        five_rows("ONLY_ONE_LABEL"),
        vec![],
        vec![],
    );
    assert_eq!(r.err(), Some(ParseError::InvalidGridShape));
}
