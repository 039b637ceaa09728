use hb_schema::parser::{compute_duration, get_building_description, ActivityType, Event};

#[test]
fn test_activity_type_detection() {
    assert_eq!(ActivityType::from_moment("Föreläsning 40S01A"), ActivityType::Lecture);
    assert_eq!(ActivityType::from_moment("Övning grupp 1"), ActivityType::Exercise);
    assert_eq!(ActivityType::from_moment("Laboration 1 grupp A och B"), ActivityType::Lab);
    assert_eq!(ActivityType::from_moment("Tentamen Matematik Bas 1"), ActivityType::Exam);
}

#[test]
fn test_building_info() {
    assert_eq!(get_building_description("M404"), "Hus M (Sandgärdet), Plan 4");
    assert_eq!(get_building_description("J517"), "Hus J (Balder), Plan 5");
    assert_eq!(get_building_description("D407"), "Hus D (Balder), Plan 4");
}

#[test]
fn test_duration_calc() {
    assert_eq!(compute_duration("08:15", "12:00"), "3h 45m");
    assert_eq!(compute_duration("13:15", "15:00"), "1h 45m");
}

fn event(
    day: &str,
    date: &str,
    full_date: &str,
    span: (&str, &str, &str),
    duration: &str,
    course: &str,
    code: &str,
    moment: &str,
    activity_type: ActivityType,
    groups: &[&str],
) -> Event {
    Event {
        week: 36,
        week_year: 2026,
        day: day.to_string(),
        date: date.to_string(),
        full_date: full_date.to_string(),
        time_span: span.0.to_string(),
        start_time: span.1.to_string(),
        end_time: span.2.to_string(),
        duration_display: duration.to_string(),
        course: course.to_string(),
        course_code: code.to_string(),
        signatures: vec![],
        rooms: vec![],
        aids: "".to_string(),
        moment: moment.to_string(),
        activity_type,
        groups: groups.iter().map(|g| g.to_string()).collect(),
        urls: vec![],
        updated: "".to_string(),
    }
}

#[test]
fn test_matches_multiple_groups() {
    let lecture = event("Mån", "31 Aug", "2026-08-31", ("08:15-10:00", "08:15", "10:00"), "1h 45m",
        "Matematik", "40S02A", "Föreläsning Introduktion", ActivityType::Lecture, &[]);
    let exercise_g1 = event("Mån", "31 Aug", "2026-08-31", ("10:15-12:00", "10:15", "12:00"), "1h 45m",
        "Matematik", "40S02A", "Övning Grupp 1", ActivityType::Exercise, &["grupp 1"]);
    let exercise_g2 = event("Mån", "31 Aug", "2026-08-31", ("10:15-12:00", "10:15", "12:00"), "1h 45m",
        "Matematik", "40S02A", "Övning Grupp 2", ActivityType::Exercise, &["grupp 2"]);
    let lab_ab = event("Tis", "1 Sep", "2026-09-01", ("13:15-17:00", "13:15", "17:00"), "3h 45m",
        "Kemi", "40S01A", "Laboration 1 grupp A och B", ActivityType::Lab,
        &["grupp a", "grupp b", "grupp a och b"]);
    let lab_cd = event("Tis", "1 Sep", "2026-09-01", ("13:15-17:00", "13:15", "17:00"), "3h 45m",
        "Kemi", "40S01A", "Laboration 1 grupp C och D", ActivityType::Lab,
        &["grupp c", "grupp d", "grupp c och d"]);

    // Case 1: Empty filters (Alla) -> matches all events
    let empty_filters: Vec<String> = vec![];
    assert!(lecture.matches_groups(&empty_filters));
    assert!(exercise_g1.matches_groups(&empty_filters));
    assert!(exercise_g2.matches_groups(&empty_filters));
    assert!(lab_ab.matches_groups(&empty_filters));
    assert!(lab_cd.matches_groups(&empty_filters));

    // Case 2: Selected "grupp 1" and "grupp a"
    let my_groups = vec!["grupp 1".to_string(), "grupp a".to_string()];
    assert!(lecture.matches_groups(&my_groups));
    assert!(exercise_g1.matches_groups(&my_groups));
    assert!(!exercise_g2.matches_groups(&my_groups));
    assert!(lab_ab.matches_groups(&my_groups));
    assert!(!lab_cd.matches_groups(&my_groups));
}
