use std::str::FromStr;
use pace_core::category::{
    split_category_by_category_separator, PaceCategory, PaceDescription, PaceTag, PaceTagCollection,
};
use pace_core::config::PaceConfig;

#[test]
fn split_category_at_the_default_separator() {
    assert_eq!(
        split_category_by_category_separator("Work::Project", None),
        ("Work".to_string(), Some("Project".to_string()))
    );
    assert_eq!(split_category_by_category_separator("Work", None), ("Work".to_string(), None));
    assert_eq!(split_category_by_category_separator("", None), (String::new(), None));
}

#[test]
fn split_category_leaves_every_further_separator_out() {
    assert_eq!(
        split_category_by_category_separator("a::b::c", None),
        ("a".to_string(), Some("bc".to_string()))
    );
    assert_eq!(
        split_category_by_category_separator("::x", None),
        (String::new(), Some("x".to_string()))
    );
    assert_eq!(
        split_category_by_category_separator("x::", None),
        ("x".to_string(), Some(String::new()))
    );
    assert_eq!(
        split_category_by_category_separator("a:::b", None),
        ("a".to_string(), Some(":b".to_string()))
    );
}

#[test]
fn split_category_with_a_given_separator() {
    assert_eq!(
        split_category_by_category_separator("Ärger/Café/Tee", Some("/")),
        ("Ärger".to_string(), Some("CaféTee".to_string()))
    );
    assert_eq!(
        split_category_by_category_separator("Work::Project", Some("/")),
        ("Work::Project".to_string(), None)
    );
    assert_eq!(
        split_category_by_category_separator("abc", Some("")),
        (String::new(), Some("abc".to_string()))
    );
}

#[test]
fn categories_descriptions_and_tags_keep_their_text() {
    assert_eq!(PaceCategory::new("Work").0, "Work");
    assert_eq!(PaceDescription::new("Writing").0, "Writing");
    assert_eq!(PaceTag::new("rust").0, "rust");
}

#[test]
fn tag_collections_hold_each_text_once() {
    let mut tags = PaceTagCollection::new(vec![PaceTag::new("a"), PaceTag::new("b"), PaceTag::new("a")]);
    assert_eq!(tags.len(), 2);
    assert!(tags.contains("a"));
    assert!(tags.contains("b"));
    assert!(!tags.contains("c"));
    assert!(!tags.insert(PaceTag::new("b")));
    assert!(tags.insert(PaceTag::new("c")));
    assert_eq!(tags.len(), 3);
    let mut texts = tags.into_texts();
    texts.sort();
    assert_eq!(texts, vec!["a".to_string(), "b".to_string(), "c".to_string()]);
    assert!(PaceTagCollection::empty().is_empty());
}

#[test]
fn config_with_activity_log_changes_only_the_path() {
    let mut config = PaceConfig::default();
    config.general.log_format = "toml".to_string();
    config.pomodoro.work_duration_minutes = 25;
    let config = config.with_activity_log("/tmp/activities.pace.toml");
    assert_eq!(config.general.activity_log_file_path, "/tmp/activities.pace.toml");
    assert_eq!(config.general.log_format, "toml");
    assert_eq!(config.pomodoro.work_duration_minutes, 25);
}

#[test]
fn categories_descriptions_and_tags_read_from_any_text() {
    assert_eq!(PaceCategory::from_str("Work::Rust").unwrap().text(), "Work::Rust");
    assert_eq!(PaceDescription::from_str("Write the report").unwrap().text(), "Write the report");
    assert_eq!(PaceTag::from_str("focus").unwrap().text(), "focus");
}
