use hb_schema::groups::{capitalize_group_name, parse_group_filter_string};

#[test]
fn test_parse_group_filter_string() {
    let set = parse_group_filter_string("grupp 1, grupp a");
    assert!(set.contains("grupp 1"));
    assert!(set.contains("grupp a"));
    assert_eq!(set.len(), 2);

    let alla_set = parse_group_filter_string("alla");
    assert!(alla_set.is_empty());

    let empty_set = parse_group_filter_string("");
    assert!(empty_set.is_empty());
}

#[test]
fn test_capitalize_group_name() {
    assert_eq!(capitalize_group_name("grupp 1"), "Grupp 1");
    assert_eq!(capitalize_group_name("grupp a"), "Grupp A");
    assert_eq!(capitalize_group_name("grupp b"), "Grupp B");
    assert_eq!(capitalize_group_name("pgrp1"), "Pgrp1");
}
