use hb_schema::config::{
    default_all_filter, default_cache_ttl, default_profile_name, default_theme, AppConfig, Profile,
    ProfileMap,
};
use hb_schema::cli::{cli_request, cli_source, CliArgs, CliRequest};
use hb_schema::groups::{capitalize_group_name, parse_group_filter_string, GroupSet};
use std::path::PathBuf;

fn args() -> CliArgs {
    CliArgs {
        config: None,
        profile: None,
        url: None,
        group: None,
        refresh: false,
        today: false,
        week: None,
        export_ical: None,
    }
}

fn profile(name: &str) -> Profile {
    Profile {
        name: name.to_string(),
        url: format!("https://schema.hb.se/{}", name),
        group_filter: "alla".to_string(),
        description: None,
    }
}

#[test]
fn default_config() {
    let c = AppConfig::default();
    assert_eq!(c.default_profile, "tekniskt_basar");
    assert_eq!(c.cache_ttl_minutes, 180);
    assert_eq!(c.theme, "modern");
    assert_eq!(c.profiles.len(), 2);
    assert_eq!(c.profiles.keys(), vec!["dataing".to_string(), "tekniskt_basar".to_string()]);
    let p = c.profiles.get("dataing").unwrap();
    assert_eq!(p.name, "Högskoleingenjör Datateknik (TGITI26h)");
    assert_eq!(p.group_filter, "alla");
    assert_eq!(default_profile_name(), "tekniskt_basar");
    assert_eq!(default_cache_ttl(), 180);
    assert_eq!(default_theme(), "modern");
    assert_eq!(default_all_filter(), "alla");
}

#[test]
fn profile_map_keeps_keys_in_order() {
    let mut m = ProfileMap::new();
    assert_eq!(m.len(), 0);
    assert!(m.get("a").is_none());
    m.insert("b".to_string(), profile("b"));
    m.insert("a".to_string(), profile("a"));
    m.insert("c".to_string(), profile("c"));
    m.insert("b".to_string(), profile("b2"));
    assert_eq!(m.len(), 3);
    assert_eq!(m.keys(), vec!["a".to_string(), "b".to_string(), "c".to_string()]);
    assert_eq!(m.get("b").unwrap().name, "b2");
    let (k, p) = m.entry(2);
    assert_eq!(k, "c");
    assert_eq!(p.name, "c");
    assert!(m.get("d").is_none());
}

#[test]
fn active_profile_choice() {
    let mut c = AppConfig::default();
    let (k, p) = c.get_active_profile(Some("dataing")).unwrap();
    assert_eq!(k, "dataing");
    assert_eq!(p.name, "Högskoleingenjör Datateknik (TGITI26h)");
    let (k, _) = c.get_active_profile(Some("saknas")).unwrap();
    assert_eq!(k, "tekniskt_basar");
    let (k, _) = c.get_active_profile(None).unwrap();
    assert_eq!(k, "tekniskt_basar");

    c.default_profile = "saknas".to_string();
    let (k, _) = c.get_active_profile(None).unwrap();
    assert_eq!(k, "dataing");

    c.profiles = ProfileMap::new();
    assert!(c.get_active_profile(Some("dataing")).is_none());
}

#[test]
fn stored_profile_is_active() {
    let mut c = AppConfig::default();
    c.profiles.insert("egen".to_string(), profile("egen"));
    let (k, p) = c.get_active_profile(Some("egen")).unwrap();
    assert_eq!(k, "egen");
    assert_eq!(p.url, "https://schema.hb.se/egen");
    let copy = p.duplicate();
    assert_eq!(copy.name, "egen");
    assert_eq!(copy.description, None);
}

#[test]
fn group_set_operations() {
    let mut s = GroupSet::new();
    assert!(s.is_empty());
    assert!(s.insert("grupp b".to_string()));
    assert!(s.insert("grupp a".to_string()));
    assert!(!s.insert("grupp b".to_string()));
    assert_eq!(s.len(), 2);
    assert_eq!(s.items(), &vec!["grupp a".to_string(), "grupp b".to_string()]);
    assert!(s.contains("grupp a"));
    assert!(!s.contains("grupp c"));
    assert!(s.remove("grupp a"));
    assert!(!s.remove("grupp a"));
    assert_eq!(s.len(), 1);
    s.clear();
    assert!(s.is_empty());
}

#[test]
fn group_filter_strings() {
    let s = parse_group_filter_string(" Grupp 2 ,ALL, *, grupp 1,, grupp 2");
    assert_eq!(s.items(), &vec!["grupp 1".to_string(), "grupp 2".to_string()]);
    assert!(parse_group_filter_string(" , alla ,").is_empty());
}

#[test]
fn group_names() {
    assert_eq!(capitalize_group_name("  GRUPP c "), "Grupp C");
    assert_eq!(capitalize_group_name("grupp 12"), "Grupp 12");
    assert_eq!(capitalize_group_name("grupp å"), "Grupp å");
    assert_eq!(capitalize_group_name("övning"), "Övning");
    assert_eq!(capitalize_group_name(""), "");
    assert_eq!(capitalize_group_name("grupp "), "Grupp");
}

#[test]
fn command_line_requests() {
    assert_eq!(cli_request(&args()), CliRequest::Interactive);
    let mut a = args();
    a.week = Some(Some(36));
    assert_eq!(cli_request(&a), CliRequest::Week(Some(36)));
    a.week = Some(None);
    assert_eq!(cli_request(&a), CliRequest::Week(None));
    a.today = true;
    assert_eq!(cli_request(&a), CliRequest::Today);
    a.export_ical = Some(PathBuf::from("schema.ics"));
    assert_eq!(cli_request(&a), CliRequest::ExportCalendar);
}

#[test]
fn command_line_source() {
    let c = AppConfig::default();
    let (url, groups) = cli_source(&args(), &c).unwrap();
    assert_eq!(url, c.profiles.get("tekniskt_basar").unwrap().url);
    assert!(groups.is_empty());

    let mut a = args();
    a.profile = Some("dataing".to_string());
    a.group = Some("Grupp 3".to_string());
    let (url, groups) = cli_source(&a, &c).unwrap();
    assert_eq!(url, c.profiles.get("dataing").unwrap().url);
    assert_eq!(groups.items(), &vec!["grupp 3".to_string()]);

    a.url = Some("https://x.se/s".to_string());
    let (url, _) = cli_source(&a, &c).unwrap();
    assert_eq!(url, "https://x.se/s");

    let mut empty = AppConfig::default();
    empty.profiles = ProfileMap::new();
    assert!(cli_source(&a, &empty).is_none());
}
