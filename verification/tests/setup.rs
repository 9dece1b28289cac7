use std::path::PathBuf;

use pace_core::setup::{FinalSetupPaths, PathOptions};

#[test]
fn final_paths_keep_the_activity_log_when_the_configuration_is_chosen() {
    let paths = FinalSetupPaths::with_activity_log(
        PathBuf::from("/home/me/pace/activities.pace.toml"),
        PathBuf::from("/home/me/pace"),
    );
    assert_eq!(paths.config_path(), &None);
    assert_eq!(paths.config_root(), &None);

    let paths = paths.with_config(PathBuf::from("/home/me/.config/pace/pace.toml"), PathBuf::from("/home/me/.config/pace"));
    assert_eq!(paths.activity_log_path(), &PathBuf::from("/home/me/pace/activities.pace.toml"));
    assert_eq!(paths.activity_log_root(), &PathBuf::from("/home/me/pace"));
    assert_eq!(paths.config_path(), &Some(PathBuf::from("/home/me/.config/pace/pace.toml")));
    assert_eq!(paths.config_root(), &Some(PathBuf::from("/home/me/.config/pace")));
}

#[test]
fn path_options_give_the_activity_log_directory() {
    let opts = PathOptions { activity_log: Some(PathBuf::from("/tmp/pace")) };
    assert_eq!(opts.activity_log(), &Some(PathBuf::from("/tmp/pace")));
    assert_eq!(PathOptions::default().activity_log(), &None);
}
