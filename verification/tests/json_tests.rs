use join_lecture::{ParseError, Section, Time, TimeTable};

fn full_document() -> &'static str {
    r#"{
        "TimeTable": {
            "time_slots": ["9:00-9:50", "9:50-10:40"],
            "day_slots": [
                "CS101,CS102",
                "CS102,CS101",
                "FREE,FREE",
                "CS101,FREE",
                "FREE,CS102"
            ]
        },
        "Courses": {
            "CS101": "CS101",
            "CS102": "CS102"
        },
        "Exceptions": {
            "PHY": ["wed", "9:00-9:50"]
        }
    }"#
}

#[test]
fn loads_and_resolves_a_full_document() {
    let t = TimeTable::from_json(full_document()).unwrap();
    let early = Time::new(9, 10).unwrap();
    let late = Time::new(10, 0).unwrap();
    assert_eq!(t.resolve(early, 0), Some("CS101".to_string()));
    assert_eq!(t.resolve(late, 0), Some("CS102".to_string()));
    assert_eq!(t.resolve(early, 1), Some("CS102".to_string()));
    assert_eq!(t.resolve(early, 2), Some("PHY".to_string()));
    assert_eq!(t.resolve(late, 2), None);
    assert_eq!(t.resolve(early, 5), None);
}

#[test]
fn invalid_json_is_rejected() {
    let r = TimeTable::from_json("not json at all {");
    assert_eq!(r.err(), Some(ParseError::InvalidJson));
}

#[test]
fn missing_sections_are_named() {
    let r = TimeTable::from_json(r#"{"Courses": {}, "Exceptions": {}}"#);
    assert_eq!(r.err(), Some(ParseError::MissingSection(Section::TimeSlots)));
    let r = TimeTable::from_json(
        r#"{"TimeTable": {"time_slots": []}, "Courses": {}, "Exceptions": {}}"#,
    );
    assert_eq!(r.err(), Some(ParseError::MissingSection(Section::DaySlots)));
    let r = TimeTable::from_json(
        r#"{"TimeTable": {"time_slots": ["9:00-9:50"], "day_slots": ["A","A","A","A","A"]},
            "Courses": 7, "Exceptions": {}}"#,
    );
    assert_eq!(r.err(), Some(ParseError::MissingSection(Section::Courses)));
    let r = TimeTable::from_json(
        r#"{"TimeTable": {"time_slots": ["9:00-9:50"], "day_slots": ["A","A","A","A","A"]},
            "Courses": {}, "Exceptions": []}"#,
    );
    assert_eq!(r.err(), Some(ParseError::MissingSection(Section::Exceptions)));
}

#[test]
fn misshapen_exception_is_fatal() {
    let r = TimeTable::from_json(
        r#"{"TimeTable": {"time_slots": ["9:00-9:50"], "day_slots": ["A","A","A","A","A"]},
            "Courses": {}, "Exceptions": {"PHY": "wed"}}"#,
    );
    assert_eq!(r.err(), Some(ParseError::InvalidExceptionFormat));
}

#[test]
fn exception_with_missing_range_fails_time_parse() {
    let r = TimeTable::from_json(
        r#"{"TimeTable": {"time_slots": ["9:00-9:50"], "day_slots": ["A","A","A","A","A"]},
            "Courses": {}, "Exceptions": {"PHY": ["wed"]}}"#,
    );
    assert_eq!(r.err(), Some(ParseError::InvalidTimeFormat));
}

#[test]
fn clock_readings_are_in_range() {
    let now = Time::now();
    assert!(now.hrs < 24);
    assert!(now.min < 60);
    // Whatever moment the clock reports, resolution terminates and returns.
    let t = TimeTable::from_json(full_document()).unwrap();
    let _ = t.get_course();
}
