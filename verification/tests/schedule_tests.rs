use hb_schema::parser::{
    active_group_filters, compute_duration, duration_between, extract_course_code,
    extract_groups, extract_urls, get_building_description, resolve_full_date, ActivityType,
    Event, Schedule,
};

pub const PAGE: &str = "<html><body>\
<table>\
<tr><td>Datum: 2026-08-31 - 2026-09-13</td><td>Utskrivet: 2026-07-02 10:00</td></tr>\
<tr><td class=\"big2\">Program: Tekniskt basår HT26</td></tr>\
</table>\
<a href=\"SchemaICAL.ics?id=1\">iCal</a>\
<table>\
<tr><td colspan=\"10\">Vecka 36, 2026</td></tr>\
<tr class=\"data-white\"><td></td><td>Mån</td><td>31 Aug</td><td>08:15-12:00</td>\
<td>Matematik Bas 1, 7.5 hp</td><td>FAGO, ULM</td><td>M404, J517</td><td></td>\
<td>Föreläsning Uppstart grupp 1 https://example.se/info.</td><td>2026-07-02</td></tr>\
<tr class=\"data-grey\"><td></td><td></td><td></td><td>13:15-15:00</td><td>Kemi</td>\
<td></td><td>D407</td><td></td><td>Laboration grupp A och B</td><td></td></tr>\
<tr><td colspan=\"10\">Vecka 37, 2026</td></tr>\
<tr class=\"data-white\"><td></td><td>Tis</td><td>8 Sep</td><td>10:00</td><td>Kemi, 7.5</td>\
<td></td><td></td><td></td><td>Tentamen</td><td></td></tr>\
<tr class=\"data-white\"><td>kort rad</td></tr>\
</table>\
</body></html>";

pub const BASE: &str = "https://schema.hb.se/setup/jsp/Schema.jsp?resurser=p.KBAST26h";

#[test]
fn parse_html_reads_metadata() {
    let s = Schedule::parse_html(PAGE, Some(BASE));
    assert_eq!(s.metadata.date_range, "2026-08-31 - 2026-09-13");
    assert_eq!(s.metadata.printed_at, "2026-07-02 10:00");
    assert_eq!(s.metadata.program_info, "Tekniskt basår HT26");
    assert_eq!(
        s.metadata.ical_url.as_deref(),
        Some("https://schema.hb.se/setup/jsp/SchemaICAL.ics?id=1")
    );
}

#[test]
fn parse_html_without_base_prefixes_the_site() {
    let s = Schedule::parse_html(PAGE, None);
    assert_eq!(s.metadata.ical_url.as_deref(), Some("https://schema.hb.seSchemaICAL.ics?id=1"));
}

#[test]
fn parse_html_keeps_absolute_calendar_links() {
    let page = "<html><body><a href=\"https://x.se/a.ics\">c</a></body></html>";
    let s = Schedule::parse_html(page, Some(BASE));
    assert_eq!(s.metadata.ical_url.as_deref(), Some("https://x.se/a.ics"));
    assert!(s.events.is_empty());
    assert!(s.weeks.is_empty());
    assert_eq!(s.metadata.program_info, "");
}

#[test]
fn parse_html_reads_events() {
    let s = Schedule::parse_html(PAGE, Some(BASE));
    assert_eq!(s.events.len(), 3);

    let e = &s.events[0];
    assert_eq!(e.week, 36);
    assert_eq!(e.week_year, 2026);
    assert_eq!(e.day, "Mån");
    assert_eq!(e.date, "31 Aug");
    assert_eq!(e.full_date, "2026-08-31");
    assert_eq!(e.time_span, "08:15-12:00");
    assert_eq!(e.start_time, "08:15");
    assert_eq!(e.end_time, "12:00");
    assert_eq!(e.duration_display, "3h 45m");
    assert_eq!(e.course, "Matematik Bas 1, 7.5 hp");
    assert_eq!(e.course_code, "Matematik Bas 1");
    assert_eq!(e.signatures, vec!["FAGO".to_string(), "ULM".to_string()]);
    assert_eq!(e.rooms, vec!["M404".to_string(), "J517".to_string()]);
    assert_eq!(e.aids, "");
    assert_eq!(e.moment, "Föreläsning Uppstart grupp 1 https://example.se/info.");
    assert_eq!(e.activity_type, ActivityType::Lecture);
    assert_eq!(e.groups, vec!["grupp 1".to_string()]);
    assert_eq!(e.urls, vec!["https://example.se/info".to_string()]);
    assert_eq!(e.updated, "2026-07-02");

    // An empty day or date cell carries the previous row's over.
    let e = &s.events[1];
    assert_eq!(e.day, "Mån");
    assert_eq!(e.date, "31 Aug");
    assert_eq!(e.full_date, "2026-08-31");
    assert_eq!(e.duration_display, "1h 45m");
    assert_eq!(e.course_code, "Kemi");
    assert!(e.signatures.is_empty());
    assert_eq!(e.rooms, vec!["D407".to_string()]);
    assert_eq!(e.activity_type, ActivityType::Lab);
    assert_eq!(e.groups, vec!["grupp a".to_string(), "grupp a och b".to_string()]);

    // A time without an end: no end time and no duration.
    let e = &s.events[2];
    assert_eq!(e.week, 37);
    assert_eq!(e.day, "Tis");
    assert_eq!(e.full_date, "2026-09-08");
    assert_eq!(e.start_time, "10:00");
    assert_eq!(e.end_time, "");
    assert_eq!(e.duration_display, "");
    assert_eq!(e.course_code, "Kemi");
    assert_eq!(e.activity_type, ActivityType::Exam);
    assert!(e.groups.is_empty());
    assert!(e.urls.is_empty());
}

#[test]
fn parse_html_summarizes_weeks() {
    let s = Schedule::parse_html(PAGE, Some(BASE));
    assert_eq!(s.weeks.len(), 2);
    assert_eq!(s.weeks[0].week_number, 36);
    assert_eq!(s.weeks[0].year, 2026);
    assert_eq!(s.weeks[0].date_span, "31 Aug");
    assert_eq!(s.weeks[0].event_count, 2);
    assert_eq!(s.weeks[1].week_number, 37);
    assert_eq!(s.weeks[1].date_span, "8 Sep");
    assert_eq!(s.weeks[1].event_count, 1);
    let total: usize = s.weeks.iter().map(|w| w.event_count).sum();
    assert_eq!(total, s.events.len());
}

#[test]
fn parse_html_rows_before_any_heading_belong_to_week_zero() {
    let page = "<table><tr class=\"data-white\"><td></td><td>Fre</td><td>1 Jan</td><td>09:00-10:30</td>\
<td>Fysik</td><td></td><td>zoom</td><td></td><td>Seminarium</td></tr></table>";
    let s = Schedule::parse_html(page, None);
    assert_eq!(s.events.len(), 1);
    assert_eq!(s.events[0].week, 0);
    assert_eq!(s.events[0].week_year, 2026);
    assert_eq!(s.events[0].full_date, "2026-01-01");
    assert_eq!(s.events[0].duration_display, "1h 30m");
    assert_eq!(s.events[0].updated, "");
    assert_eq!(s.events[0].activity_type, ActivityType::Seminar);
    assert_eq!(s.events[0].room_info_formatted(), vec!["zoom (Distans / Zoom)".to_string()]);
    assert_eq!(s.metadata.ical_url, None);
}

#[test]
fn durations() {
    assert_eq!(compute_duration("08:00", "09:00"), "1h");
    assert_eq!(compute_duration("08:00", "08:30"), "30m");
    assert_eq!(compute_duration("10:00", "09:00"), "");
    assert_eq!(compute_duration("10:00", "10:00"), "");
    assert_eq!(compute_duration("", "10:00"), "");
    assert_eq!(compute_duration("8", "10:00"), "");
    assert_eq!(compute_duration("25:00", "26:00"), "");
    assert_eq!(duration_between(Some(0), Some(3600 + 60 * 5)), "1h 5m");
    assert_eq!(duration_between(None, Some(60)), "");
}

#[test]
fn buildings() {
    assert_eq!(get_building_description("m404"), "Hus M (Sandgärdet), Plan 4");
    assert_eq!(get_building_description(" A2 "), "Hus A (Balder), Plan 2");
    assert_eq!(get_building_description("T"), "Textile Fashion Center");
    assert_eq!(get_building_description("KX"), "Kårhuset");
    assert_eq!(get_building_description("S1xx"), "Hus S (Sandgärdet), Plan 1");
    assert_eq!(get_building_description("Zoom"), "Distans / Zoom");
    assert_eq!(get_building_description("online"), "Distans / Zoom");
    assert_eq!(get_building_description("distans"), "Hus D (Balder)");
    assert_eq!(get_building_description("X1"), "");
    assert_eq!(get_building_description(""), "");
    assert_eq!(get_building_description("   "), "");
}

#[test]
fn course_codes() {
    assert_eq!(extract_course_code("Matematik Bas 1, 7.5 FUPO 50% HT26"), "Matematik Bas 1");
    assert_eq!(extract_course_code("  Kemi  "), "Kemi");
    assert_eq!(extract_course_code(", x"), "");
}

#[test]
fn groups_from_moments() {
    assert_eq!(
        extract_groups("Övning Grupp 1 och 2"),
        vec!["grupp 1".to_string(), "grupp 1 och 2".to_string()]
    );
    assert_eq!(extract_groups("Lab grupp 10"), vec!["grupp 1".to_string(), "grupp 10".to_string()]);
    assert_eq!(extract_groups("PGRP2 seminarium"), vec!["pgrp2".to_string()]);
    assert!(extract_groups("Föreläsning").is_empty());
}

#[test]
fn urls_from_text() {
    assert_eq!(
        extract_urls("Se http://a.se/x), och https://b.se/y]. samt ftp://c.se"),
        vec!["http://a.se/x".to_string(), "https://b.se/y".to_string()]
    );
    assert!(extract_urls("ingen länk här").is_empty());
}

#[test]
fn full_dates() {
    assert_eq!(resolve_full_date("31 Aug", 2026), "2026-08-31");
    assert_eq!(resolve_full_date("5 Okt", 2026), "2026-10-05");
    assert_eq!(resolve_full_date("1 mår", 27), "0027-03-01");
    assert_eq!(resolve_full_date("12 May 2027", 2027), "2027-05-12");
    assert_eq!(resolve_full_date("31 Foo", 2026), "31 Foo");
    assert_eq!(resolve_full_date("Aug 31", 2026), "Aug 31");
    assert_eq!(resolve_full_date("31", 2026), "31");
    assert_eq!(resolve_full_date("", 2026), "");
}

#[test]
fn activity_kinds() {
    assert_eq!(ActivityType::from_moment("Kursintroduktion"), ActivityType::Lecture);
    assert_eq!(ActivityType::from_moment("Handledning"), ActivityType::Exercise);
    assert_eq!(ActivityType::from_moment("Dugga 2"), ActivityType::Exam);
    assert_eq!(ActivityType::from_moment("SEMINARIUM"), ActivityType::Seminar);
    assert_eq!(ActivityType::from_moment("Studiebesök"), ActivityType::Other("Studiebesök".to_string()));
    assert_eq!(ActivityType::Lecture.display_name(), "Föreläsning");
    assert_eq!(ActivityType::Exercise.display_name(), "Övning");
    assert_eq!(ActivityType::Lab.display_name(), "Laboration");
    assert_eq!(ActivityType::Exam.display_name(), "Tentamen");
    assert_eq!(ActivityType::Seminar.display_name(), "Seminarium");
    assert_eq!(ActivityType::Other("x".to_string()).display_name(), "Övrigt");
    assert_eq!(ActivityType::Lab.icon(), "🔬");
    assert_eq!(ActivityType::Other("x".to_string()).icon(), "📌");
    assert!(ActivityType::Other("a".to_string()).same_as(&ActivityType::Other("a".to_string())));
    assert!(!ActivityType::Other("a".to_string()).same_as(&ActivityType::Other("b".to_string())));
    assert!(!ActivityType::Lab.same_as(&ActivityType::Exam));
}

fn sample_event() -> Event {
    let s = Schedule::parse_html(PAGE, Some(BASE));
    s.events[0].clone()
}

#[test]
fn rooms_with_buildings() {
    let e = sample_event();
    assert_eq!(
        e.room_info_formatted(),
        vec![
            "M404 (Hus M (Sandgärdet), Plan 4)".to_string(),
            "J517 (Hus J (Balder), Plan 5)".to_string()
        ]
    );
}

#[test]
fn search_matching() {
    let e = sample_event();
    assert!(e.matches_filter(""));
    assert!(e.matches_filter("MATEMATIK"));
    assert!(e.matches_filter("uppstart"));
    assert!(e.matches_filter("mån"));
    assert!(e.matches_filter("aug"));
    assert!(e.matches_filter("08:15"));
    assert!(e.matches_filter("föreläsning"));
    assert!(e.matches_filter("j517"));
    assert!(e.matches_filter("ulm"));
    assert!(e.matches_filter("grupp 1"));
    assert!(!e.matches_filter("kemi"));
}

#[test]
fn single_group_matching() {
    let e = sample_event();
    assert!(e.matches_group("alla"));
    assert!(e.matches_group("*"));
    assert!(e.matches_group("Grupp 1"));
    assert!(e.matches_group("1"));
    assert!(!e.matches_group("grupp 2"));
    assert!(!e.matches_group("2"));
    assert_eq!(
        active_group_filters(&vec![" Grupp A ".to_string(), "ALL".to_string(), "".to_string()]),
        vec!["grupp a".to_string()]
    );
}

#[test]
fn kind_names_read_back() {
    for a in [
        ActivityType::Lecture,
        ActivityType::Exercise,
        ActivityType::Lab,
        ActivityType::Exam,
        ActivityType::Seminar,
    ] {
        assert_eq!(ActivityType::from_moment(a.display_name()), a);
    }
}

#[test]
fn parsed_events_agree_with_their_texts() {
    let s = Schedule::parse_html(PAGE, Some(BASE));
    for e in &s.events {
        assert_eq!(e.course_code, extract_course_code(&e.course));
        assert_eq!(e.activity_type, ActivityType::from_moment(&e.moment));
        assert_eq!(e.groups, extract_groups(&e.moment));
        assert_eq!(e.urls, extract_urls(&e.moment));
        assert_eq!(e.full_date, resolve_full_date(&e.date, e.week_year));
        assert_eq!(e.duration_display, compute_duration(&e.start_time, &e.end_time));
        for r in e.rooms.iter().chain(e.signatures.iter()) {
            assert!(!r.is_empty());
            assert_eq!(r.trim(), r.as_str());
        }
    }
}

#[test]
fn weeks_count_their_events_in_order() {
    let s = Schedule::parse_html(PAGE, Some(BASE));
    let mut firsts = Vec::new();
    for w in &s.weeks {
        let of_week: Vec<usize> = (0..s.events.len())
            .filter(|&k| s.events[k].week == w.week_number && s.events[k].week_year == w.year)
            .collect();
        assert_eq!(w.event_count, of_week.len());
        assert_eq!(w.date_span, s.events[of_week[0]].date);
        firsts.push(of_week[0]);
    }
    assert!(firsts.windows(2).all(|p| p[0] < p[1]));
}
