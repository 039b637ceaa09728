use hb_schema::app::{
    events_in_week_number, events_on_date, fetch_info_text, App, Key, KeyAction, Modal, ViewMode,
};
use hb_schema::config::{config_source, AppConfig, ConfigSource};
use hb_schema::fetcher::{
    cache_is_fresh, fallback_for, schedule_result, Fallback, FetchResult, ServerFailure,
};
use hb_schema::report::{today_lines, week_lines};
use hb_schema::groups::parse_group_filter_string;
use hb_schema::parser::Schedule;

const PAGE: &str = "<html><body>\
<table><tr><td class=\"big2\">Program: Tekniskt basår HT26</td></tr></table>\
<table>\
<tr><td>Vecka 36, 2026</td></tr>\
<tr class=\"data-white\"><td></td><td>Mån</td><td>31 Aug</td><td>08:15-12:00</td>\
<td>Matematik Bas 1, 7.5 hp</td><td>FAGO, ULM</td><td>M404, J517</td><td></td>\
<td>Föreläsning Uppstart grupp 1 https://example.se/info.</td><td>2026-07-02</td></tr>\
<tr class=\"data-grey\"><td></td><td></td><td></td><td>13:15-15:00</td><td>Kemi</td>\
<td>ULM</td><td>D407</td><td></td><td>Laboration grupp A och B</td><td></td></tr>\
<tr><td>Vecka 37, 2026</td></tr>\
<tr class=\"data-white\"><td></td><td>Tis</td><td>8 Sep</td><td>10:00-12:00</td><td>Kemi</td>\
<td>FAGO</td><td>D407, M404</td><td></td><td>Tentamen grupp 2</td><td></td></tr>\
</table></body></html>";

fn fetched(from_cache: bool, age: Option<u64>, warning: Option<&str>) -> FetchResult {
    FetchResult {
        schedule: Schedule::parse_html(PAGE, None),
        from_cache,
        cache_age_secs: age,
        warning: warning.map(|w| w.to_string()),
    }
}

fn loaded_app() -> App {
    let mut app = App::new(AppConfig::default(), None, None);
    app.apply_fetch(fetched(false, None, None));
    app.jump_to_current_week(36);
    app
}

fn press(app: &mut App, key: Key) -> KeyAction {
    app.handle_key(key, "2026-01-01", 36)
}

fn status(app: &App) -> Option<String> {
    app.get_status(0).map(|s| s.to_string())
}

#[test]
fn new_picks_the_profile() {
    let app = App::new(AppConfig::default(), None, None);
    assert_eq!(app.active_profile_key, "tekniskt_basar");
    assert_eq!(app.active_profile.name, "Tekniskt Basår (KBAST26h)");
    assert!(app.selected_groups.is_empty());
    assert_eq!(app.view_mode, ViewMode::Week);
    assert_eq!(app.modal, Modal::Closed);
    assert!(app.schedule.is_none());
    assert!(app.get_selected_event().is_none());

    let app = App::new(AppConfig::default(), Some("dataing"), None);
    assert_eq!(app.active_profile_key, "dataing");

    let app = App::new(AppConfig::default(), Some("saknas"), None);
    assert_eq!(app.active_profile_key, "tekniskt_basar");

    let app = App::new(AppConfig::default(), Some("dataing"), Some("https://x.se/s"));
    assert_eq!(app.active_profile_key, "custom");
    assert_eq!(app.active_profile.url, "https://x.se/s");
    assert_eq!(app.active_profile.name, "Anpassat schema");
}

#[test]
fn new_without_profiles_uses_the_standard_one() {
    let mut config = AppConfig::default();
    config.profiles = hb_schema::config::ProfileMap::new();
    let app = App::new(config, None, None);
    assert_eq!(app.active_profile_key, "default");
    assert_eq!(app.active_profile.url, "https://schema.hb.se");
}

#[test]
fn apply_fetch_records_the_source() {
    let mut app = App::new(AppConfig::default(), None, None);
    app.apply_fetch(fetched(true, Some(125 * 60), Some("varning")));
    assert_eq!(app.fetch_info.as_deref(), Some("Cachad (för 2h 5m sedan)"));
    assert_eq!(app.warning_message.as_deref(), Some("varning"));
    assert_eq!(status(&app).as_deref(), Some("Schemat laddades utan problem."));
    assert_eq!(app.get_status(5), None);
    assert_eq!(app.schedule.as_ref().map(|s| s.events.len()), Some(3));
}

#[test]
fn fetch_info_texts() {
    assert_eq!(fetch_info_text(false, Some(100)), "Hämtat live från HB");
    assert_eq!(fetch_info_text(true, None), "Cachad offline");
    assert_eq!(fetch_info_text(true, Some(59)), "Cachad (nyss)");
    assert_eq!(fetch_info_text(true, Some(60 * 42)), "Cachad (för 42 min sedan)");
    assert_eq!(fetch_info_text(true, Some(3600)), "Cachad (för 1h 0m sedan)");
}

#[test]
fn cache_freshness() {
    assert!(cache_is_fresh(false, Some(10), 1));
    assert!(!cache_is_fresh(false, Some(60), 1));
    assert!(!cache_is_fresh(true, Some(10), 1));
    assert!(!cache_is_fresh(false, None, 180));
}

#[test]
fn weeks_and_events() {
    let mut app = loaded_app();
    assert_eq!(app.selected_week_index, 0);
    assert_eq!(app.get_current_week_info().map(|w| w.week_number), Some(36));
    assert_eq!(app.get_filtered_events_for_week(36, 2026).len(), 2);
    assert_eq!(app.get_filtered_events_for_week(36, 2025).len(), 0);
    assert_eq!(app.get_all_filtered_events().len(), 3);
    assert_eq!(app.get_current_view_events().len(), 2);

    app.jump_to_current_week(37);
    assert_eq!(app.selected_week_index, 1);
    app.jump_to_current_week(50);
    assert_eq!(app.selected_week_index, 1);
    app.jump_to_current_week(1);
    assert_eq!(app.selected_week_index, 0);

    app.next_week();
    assert_eq!(app.selected_week_index, 1);
    app.next_week();
    assert_eq!(app.selected_week_index, 1);
    app.prev_week();
    app.prev_week();
    assert_eq!(app.selected_week_index, 0);
}

#[test]
fn event_cursor_wraps() {
    let mut app = loaded_app();
    assert_eq!(app.get_selected_event().map(|e| e.course.as_str()), Some("Matematik Bas 1, 7.5 hp"));
    app.next_event();
    assert_eq!(app.selected_event_index, 1);
    assert_eq!(app.get_selected_event().map(|e| e.course.as_str()), Some("Kemi"));
    app.next_event();
    assert_eq!(app.selected_event_index, 0);
    app.prev_event();
    assert_eq!(app.selected_event_index, 1);
    app.next_event();
    app.prev_event();
    assert_eq!(app.selected_event_index, 1);
}

#[test]
fn days() {
    let mut app = loaded_app();
    assert_eq!(app.get_unique_days(), vec!["2026-08-31".to_string(), "2026-09-08".to_string()]);
    app.next_mode();
    app.next_mode();
    assert_eq!(app.view_mode, ViewMode::Day);
    assert_eq!(app.get_current_view_events().len(), 2);
    app.next_day();
    assert_eq!(app.selected_day_index, 1);
    assert_eq!(app.get_current_view_events().len(), 1);
    app.next_day();
    assert_eq!(app.selected_day_index, 1);
    app.prev_day();
    app.prev_day();
    assert_eq!(app.selected_day_index, 0);
    app.next_mode();
    assert_eq!(app.view_mode, ViewMode::Courses);
    assert!(app.get_current_view_events().is_empty());
    app.next_mode();
    assert_eq!(app.view_mode, ViewMode::Week);
}

#[test]
fn view_keys() {
    let mut app = loaded_app();
    assert_eq!(press(&mut app, Key::Tab), KeyAction::Nothing);
    assert_eq!(app.view_mode, ViewMode::Timeline);
    press(&mut app, Key::BackTab);
    assert_eq!(app.view_mode, ViewMode::Week);
    press(&mut app, Key::BackTab);
    assert_eq!(app.view_mode, ViewMode::Courses);
    press(&mut app, Key::Char('3'));
    assert_eq!(app.view_mode, ViewMode::Day);
    press(&mut app, Key::Right);
    assert_eq!(app.selected_day_index, 1);
    press(&mut app, Key::Char('h'));
    assert_eq!(app.selected_day_index, 0);
    press(&mut app, Key::Char('1'));
    press(&mut app, Key::Char('n'));
    assert_eq!(app.selected_week_index, 1);
    press(&mut app, Key::Left);
    assert_eq!(app.selected_week_index, 0);
    press(&mut app, Key::Down);
    assert_eq!(app.selected_event_index, 1);
    press(&mut app, Key::Char('k'));
    assert_eq!(app.selected_event_index, 0);
    press(&mut app, Key::Char('4'));
    for _ in 0..10 {
        press(&mut app, Key::Char('j'));
    }
    assert_eq!(app.selected_course_index, 4);
    press(&mut app, Key::Up);
    assert_eq!(app.selected_course_index, 3);
    press(&mut app, Key::Char('2'));
    assert_eq!(app.view_mode, ViewMode::Timeline);
    assert_eq!(press(&mut app, Key::Char('q')), KeyAction::Nothing);
    assert!(app.should_quit);
}

#[test]
fn search_dialog() {
    let mut app = loaded_app();
    press(&mut app, Key::Char('2'));
    press(&mut app, Key::Char('/'));
    assert_eq!(app.modal, Modal::Search);
    for c in "kemx".chars() {
        press(&mut app, Key::Char(c));
    }
    press(&mut app, Key::Backspace);
    press(&mut app, Key::Char('i'));
    assert_eq!(app.search_input_buffer, "kemi");
    press(&mut app, Key::Enter);
    assert_eq!(app.modal, Modal::Closed);
    assert_eq!(app.search_query, "kemi");
    assert_eq!(status(&app).as_deref(), Some("Filtrerar på \"kemi\""));
    assert_eq!(app.get_current_view_events().len(), 2);

    press(&mut app, Key::Char('/'));
    assert_eq!(app.search_input_buffer, "kemi");
    press(&mut app, Key::Char('z'));
    press(&mut app, Key::Esc);
    assert_eq!(app.modal, Modal::Closed);
    assert_eq!(app.search_query, "kemi");

    press(&mut app, Key::Esc);
    assert_eq!(app.search_query, "");
    assert_eq!(status(&app).as_deref(), Some("Sökfilter rensat."));

    press(&mut app, Key::Char('/'));
    press(&mut app, Key::Enter);
    assert_eq!(status(&app).as_deref(), Some("Sökning rensad."));
}

#[test]
fn group_dialog() {
    let mut app = loaded_app();
    press(&mut app, Key::Char('g'));
    assert_eq!(app.modal, Modal::GroupFilter);
    press(&mut app, Key::Char(' '));
    assert!(app.selected_groups.contains("grupp 1"));
    // Week 36: the lab of groups A and B is hidden, the lecture of group 1 is not.
    assert_eq!(app.get_current_view_events().len(), 1);
    press(&mut app, Key::Char(' '));
    assert!(app.selected_groups.is_empty());

    press(&mut app, Key::Char('2'));
    assert!(app.selected_groups.contains("grupp 2"));
    press(&mut app, Key::Char('0'));
    assert_eq!(app.selected_groups.len(), 1);
    press(&mut app, Key::Enter);
    assert_eq!(app.modal, Modal::Closed);
    assert_eq!(status(&app).as_deref(), Some("Aktiva gruppfilter: Grupp 2"));
    assert_eq!(app.selected_groups_display(), "Grupp 2");
    // Week 36 has nothing for group 2; week 37 has its exam.
    assert_eq!(app.get_current_view_events().len(), 0);
    assert_eq!(app.get_filtered_events_for_week(37, 2026).len(), 1);

    press(&mut app, Key::Char('f'));
    press(&mut app, Key::Char('a'));
    assert_eq!(app.selected_groups.len(), 14);
    press(&mut app, Key::Char('a'));
    assert!(app.selected_groups.is_empty());
    press(&mut app, Key::Char('3'));
    press(&mut app, Key::Char('c'));
    assert!(app.selected_groups.is_empty());
    assert_eq!(status(&app).as_deref(), Some("Alla gruppfilter rensade (visar alla grupper)."));
    press(&mut app, Key::Down);
    press(&mut app, Key::Down);
    press(&mut app, Key::Char('k'));
    assert_eq!(app.selected_group_index, 1);
    press(&mut app, Key::Char('q'));
    assert_eq!(status(&app).as_deref(), Some("Visar alla grupper."));
    assert_eq!(app.selected_groups_display(), "Alla");
}

#[test]
fn group_options() {
    let app = loaded_app();
    let opts = app.get_group_options();
    assert_eq!(opts.len(), 14);
    assert_eq!(opts[0].key, "grupp 1");
    assert_eq!(opts[0].title, "Grupp 1");
    assert_eq!(opts[0].description, "Övningar & seminarier");
    assert_eq!(opts[13].key, "grupp h");
    assert_eq!(opts[13].description, "Laborationsgrupp H");

    let page = "<table><tr class=\"data-white\"><td></td><td>Mån</td><td>1 Sep</td><td>08:00</td>\
<td>K</td><td></td><td></td><td></td><td>Övning grupp 10 och pgrp3</td></tr></table>";
    let mut app = App::new(AppConfig::default(), None, None);
    app.apply_fetch(FetchResult {
        schedule: Schedule::parse_html(page, None),
        from_cache: false,
        cache_age_secs: None,
        warning: None,
    });
    let opts = app.get_group_options();
    let keys: Vec<&str> = opts.iter().map(|o| o.key.as_str()).collect();
    assert_eq!(&keys[14..], &["grupp 10", "pgrp3"]);
    assert_eq!(opts[14].title, "Grupp 10");
    assert_eq!(opts[15].title, "Pgrp3");
    assert_eq!(opts[15].description, "Från schemat");
}

#[test]
fn go_to_week_dialog() {
    let mut app = loaded_app();
    press(&mut app, Key::Char('w'));
    assert_eq!(app.modal, Modal::GoToWeek(String::new()));
    press(&mut app, Key::Char('3'));
    press(&mut app, Key::Char('x'));
    press(&mut app, Key::Char('8'));
    press(&mut app, Key::Backspace);
    press(&mut app, Key::Char('7'));
    assert_eq!(app.modal, Modal::GoToWeek("37".to_string()));
    press(&mut app, Key::Enter);
    assert_eq!(app.modal, Modal::Closed);
    assert_eq!(app.selected_week_index, 1);
    assert_eq!(status(&app).as_deref(), Some("Hoppade till vecka 37"));

    press(&mut app, Key::Char('w'));
    press(&mut app, Key::Char('4'));
    press(&mut app, Key::Enter);
    assert_eq!(app.selected_week_index, 1);
    assert_eq!(status(&app).as_deref(), Some("Vecka 4 hittades inte i schemat."));

    press(&mut app, Key::Char('w'));
    press(&mut app, Key::Esc);
    assert_eq!(app.modal, Modal::Closed);
}

#[test]
fn profile_dialog() {
    let mut app = loaded_app();
    press(&mut app, Key::Char('s'));
    assert_eq!(app.modal, Modal::SwitchProfile);
    press(&mut app, Key::Down);
    press(&mut app, Key::Down);
    assert_eq!(app.selected_profile_index, 1);
    assert_eq!(press(&mut app, Key::Enter), KeyAction::LoadProfile);
    assert_eq!(app.modal, Modal::Closed);
    assert_eq!(app.active_profile_key, "tekniskt_basar");

    press(&mut app, Key::Char('s'));
    assert_eq!(press(&mut app, Key::Char('9')), KeyAction::Nothing);
    assert_eq!(app.modal, Modal::SwitchProfile);
    assert_eq!(press(&mut app, Key::Char('1')), KeyAction::LoadProfile);
    assert_eq!(app.modal, Modal::Closed);
    assert_eq!(app.active_profile_key, "dataing");

    app.apply_fetch(fetched(false, None, None));
    app.finish_profile_switch(37);
    assert_eq!(app.selected_week_index, 1);
    assert_eq!(
        status(&app).as_deref(),
        Some("Växlade till schema: Högskoleingenjör Datateknik (TGITI26h)")
    );

    assert!(!app.begin_profile_switch("saknas"));
    assert_eq!(app.active_profile_key, "dataing");
}

#[test]
fn other_keys() {
    let mut app = loaded_app();
    assert_eq!(press(&mut app, Key::Char('r')), KeyAction::Reload);
    assert_eq!(status(&app).as_deref(), Some("Hämtar nytt schema från servern..."));
    app.report_reload_failure("nätverket svarar inte");
    assert_eq!(status(&app).as_deref(), Some("Kunde inte uppdatera: nätverket svarar inte"));

    assert_eq!(press(&mut app, Key::Char('o')), KeyAction::OpenSchedule);
    assert_eq!(status(&app).as_deref(), Some("Öppnade schemat i webbläsaren."));

    assert_eq!(
        press(&mut app, Key::Char('u')),
        KeyAction::OpenLink("https://example.se/info".to_string())
    );
    app.report_link_opened("https://example.se/info", true);
    assert_eq!(status(&app).as_deref(), Some("Öppnade länk i webbläsare: https://example.se/info"));
    app.report_link_opened("https://example.se/info", false);
    assert_eq!(status(&app).as_deref(), Some("Ingen webblänk hittades i den markerade händelsen."));

    press(&mut app, Key::Down);
    assert_eq!(press(&mut app, Key::Char('u')), KeyAction::Nothing);
    assert_eq!(status(&app).as_deref(), Some("Ingen webblänk hittades i den markerade händelsen."));

    press(&mut app, Key::Char('k'));
    press(&mut app, Key::Enter);
    assert_eq!(app.modal, Modal::EventDetails);
    assert_eq!(
        press(&mut app, Key::Char('w')),
        KeyAction::OpenLink("https://example.se/info".to_string())
    );
    assert_eq!(press(&mut app, Key::Char('o')), KeyAction::OpenSchedule);
    press(&mut app, Key::Char('d'));
    assert_eq!(app.modal, Modal::Closed);

    press(&mut app, Key::F(1));
    assert_eq!(app.modal, Modal::Help);
    press(&mut app, Key::Char('x'));
    assert_eq!(app.modal, Modal::Help);
    press(&mut app, Key::Char('?'));
    assert_eq!(app.modal, Modal::Closed);
    assert_eq!(press(&mut app, Key::Other), KeyAction::Nothing);
}

#[test]
fn today_key() {
    let mut app = loaded_app();
    app.handle_key(Key::Char('t'), "2026-09-08", 36);
    assert_eq!(app.selected_week_index, 1);
    assert_eq!(app.selected_event_index, 0);
    assert_eq!(status(&app).as_deref(), Some("Hoppade till dagens schema."));

    app.jump_to_today("2030-01-01", 36);
    assert_eq!(app.selected_week_index, 0);
    assert_eq!(status(&app).as_deref(), Some("Inga händelser hittades för idag. Visar aktuell vecka."));

    app.next_event();
    app.jump_to_today("2026-08-31", 37);
    assert_eq!(app.selected_week_index, 0);
    assert_eq!(app.selected_event_index, 0);
}

#[test]
fn set_group_filter_and_status() {
    let mut app = loaded_app();
    app.set_group_filter("Grupp 2, alla");
    assert_eq!(app.selected_groups_display(), "Grupp 2");
    app.set_group_filter("grupp b,grupp 1");
    assert_eq!(app.selected_groups_display(), "Grupp 1, Grupp B");
    app.set_status("hej".to_string());
    assert_eq!(app.get_status(4), Some("hej"));
    assert_eq!(app.get_status(5), None);
}

#[test]
fn course_overview() {
    let mut app = loaded_app();
    let cs = app.course_summaries();
    assert_eq!(cs.len(), 2);
    assert_eq!(cs[0].course, "Kemi");
    assert_eq!(cs[0].event_count, 2);
    assert_eq!(cs[0].lectures, 0);
    assert_eq!(cs[0].labs, 1);
    assert_eq!(cs[0].exams, 1);
    assert_eq!(cs[0].exercises, 0);
    assert_eq!(cs[0].rooms, vec!["D407".to_string(), "M404".to_string()]);
    assert_eq!(cs[0].signatures, vec!["ULM".to_string(), "FAGO".to_string()]);
    assert_eq!(cs[0].first_date, "2026-08-31");
    assert_eq!(cs[0].last_date, "2026-09-08");
    assert_eq!(cs[1].course, "Matematik Bas 1, 7.5 hp");
    assert_eq!(cs[1].lectures, 1);

    app.search_query = "matematik".to_string();
    let cs = app.course_summaries();
    assert_eq!(cs.len(), 1);
    assert_eq!(cs[0].first_date, "2026-08-31");
    assert_eq!(cs[0].last_date, "2026-08-31");
}

#[test]
fn listings() {
    let s = Schedule::parse_html(PAGE, None);
    let none = parse_group_filter_string("alla");
    let g2 = parse_group_filter_string("grupp 2");
    assert_eq!(events_on_date(&s.events, "2026-08-31", &none).len(), 2);
    assert_eq!(events_on_date(&s.events, "2026-08-31", &g2).len(), 0);
    assert_eq!(events_on_date(&s.events, "2026-09-08", &g2).len(), 1);
    assert_eq!(events_on_date(&s.events, "2026-12-24", &none).len(), 0);
    assert_eq!(events_in_week_number(&s.events, 37, &none).len(), 1);
    let g1 = parse_group_filter_string("grupp 1");
    assert_eq!(events_in_week_number(&s.events, 37, &g1).len(), 0);
    assert_eq!(events_in_week_number(&s.events, 36, &g1).len(), 1);
}

#[test]
fn search_open_and_confirm_keeps_the_query() {
    let mut app = loaded_app();
    app.search_query = "ulm".to_string();
    press(&mut app, Key::Char('/'));
    press(&mut app, Key::Enter);
    assert_eq!(app.search_query, "ulm");
    assert_eq!(app.modal, Modal::Closed);
    assert_eq!(app.selected_event_index, 0);
}

#[test]
fn wildcard_groups_show_everything() {
    let s = Schedule::parse_html(PAGE, None);
    let filters = vec!["alla".to_string(), " * ".to_string(), "ALL".to_string(), "".to_string()];
    for e in &s.events {
        assert!(e.matches_groups(&filters));
    }
}

#[test]
fn today_listing() {
    let s = Schedule::parse_html(PAGE, None);
    let lines = today_lines(&s, "2026-08-31", &parse_group_filter_string("grupp 1"));
    let expected: Vec<String> = vec![
        "==================================================",
        "  HB SCHEMA - IDAG (2026-08-31)",
        "  Program: Tekniskt basår HT26",
        "  Gruppfilter: Grupp 1",
        "==================================================",
        "1. 08:15-12:00 [Föreläsning] - Matematik Bas 1, 7.5 hp",
        "   Lokal: M404, J517",
        "   Lärare: FAGO, ULM",
        "   Moment: Föreläsning Uppstart grupp 1 https://example.se/info.",
        "",
    ]
    .into_iter()
    .map(|l| l.to_string())
    .collect();
    assert_eq!(lines, expected);

    let lines = today_lines(&s, "2026-12-24", &parse_group_filter_string(""));
    assert_eq!(lines.len(), 5);
    assert_eq!(lines[1], "  HB SCHEMA - IDAG (2026-12-24)");
    assert_eq!(lines[4], "Inga schemalagda aktiviteter idag.");
}

#[test]
fn week_listing() {
    let s = Schedule::parse_html(PAGE, None);
    let lines = week_lines(&s, 36, &parse_group_filter_string("alla"));
    assert_eq!(lines.len(), 6);
    assert_eq!(lines[1], "  HB SCHEMA - VECKA 36");
    assert_eq!(
        lines[4],
        "[Mån 31 Aug] 08:15-12:00 | Föreläsning  | Matematik Bas 1           | Sal: M404, J517 | Föreläsning Uppstart grupp 1 https://example.se/info."
    );
    assert_eq!(
        lines[5],
        "[Mån 31 Aug] 13:15-15:00 | Laboration   | Kemi                      | Sal: D407       | Laboration grupp A och B"
    );
    let lines = week_lines(&s, 5, &parse_group_filter_string("grupp 1"));
    assert_eq!(lines[3], "  Gruppfilter: Grupp 1");
    assert_eq!(lines[5], "Inga aktiviteter hittades för vecka 5.");
}

#[test]
fn server_fallbacks() {
    assert_eq!(
        fallback_for(&ServerFailure::Status("503 Service Unavailable".to_string()), true),
        Fallback::UseCache("Servern svarade med felkod 503 Service Unavailable. Visar cachad version.".to_string())
    );
    assert_eq!(
        fallback_for(&ServerFailure::Status("404 Not Found".to_string()), false),
        Fallback::Fail("Servern svarade med felkod: 404 Not Found".to_string())
    );
    assert_eq!(
        fallback_for(&ServerFailure::Unreachable("timeout".to_string()), true),
        Fallback::UseCache("Kunde inte ansluta till nätverket (timeout). Visar offline-cache.".to_string())
    );
    assert_eq!(
        fallback_for(&ServerFailure::Unreachable("dns".to_string()), false),
        Fallback::Fail("Kunde inte hämta schemat och ingen offline-cache hittades: dns".to_string())
    );
    let page = "<a href=\"cal/SchemaICAL.ics\">i</a>";
    let r = schedule_result(page, "https://schema.hb.se/setup/jsp/Schema.jsp", true, Some(7), Some("w".to_string()));
    assert_eq!(r.schedule.metadata.ical_url.as_deref(), Some("https://schema.hb.se/setup/jsp/cal/SchemaICAL.ics"));
    assert!(r.from_cache);
    assert_eq!(r.cache_age_secs, Some(7));
    assert_eq!(r.warning.as_deref(), Some("w"));
}

#[test]
fn config_sources() {
    assert_eq!(config_source(Some(true), true, true), ConfigSource::ReadGiven);
    assert_eq!(config_source(Some(false), true, true), ConfigSource::CreateGiven);
    assert_eq!(config_source(None, true, true), ConfigSource::ReadLocal);
    assert_eq!(config_source(None, false, true), ConfigSource::ReadUser);
    assert_eq!(config_source(None, false, false), ConfigSource::CreateUser);
}

#[test]
fn course_overview_counts_every_shown_event() {
    let mut app = loaded_app();
    let total: usize = app.course_summaries().iter().map(|c| c.event_count).sum();
    assert_eq!(total, app.get_all_filtered_events().len());
    app.set_group_filter("grupp 2");
    let total: usize = app.course_summaries().iter().map(|c| c.event_count).sum();
    assert_eq!(total, app.get_all_filtered_events().len());
    assert_eq!(total, 1);
}

#[test]
fn course_overview_adds_up_exercise_time() {
    let page = "<table><tr><td>Vecka 36, 2026</td></tr>\
<tr class=\"data-white\"><td></td><td>Mån</td><td>31 Aug</td><td>08:15-10:00</td><td>Fysik</td>\
<td></td><td></td><td></td><td>Övning grupp 1</td></tr>\
<tr class=\"data-white\"><td></td><td>Tis</td><td>1 Sep</td><td>13:00-15:30</td><td>Fysik</td>\
<td></td><td></td><td></td><td>Räknestuga</td></tr>\
<tr class=\"data-white\"><td></td><td>Tis</td><td>1 Sep</td><td>15:30-17:00</td><td>Fysik</td>\
<td></td><td></td><td></td><td>Föreläsning</td></tr>\
<tr class=\"data-white\"><td></td><td>Ons</td><td>2 Sep</td><td>10:00</td><td>Fysik</td>\
<td></td><td></td><td></td><td>Workshop</td></tr></table>";
    let mut app = App::new(AppConfig::default(), None, None);
    app.apply_fetch(FetchResult {
        schedule: Schedule::parse_html(page, None),
        from_cache: false,
        cache_age_secs: None,
        warning: None,
    });
    let cs = app.course_summaries();
    assert_eq!(cs.len(), 1);
    assert_eq!(cs[0].exercises, 3);
    assert_eq!(cs[0].lectures, 1);
    // 1h 45m + 2h 30m; the workshop without an end time adds nothing.
    assert_eq!(cs[0].exercise_minutes, 255);
}
