//! The configuration of the application, as read from its configuration file.

use vstd::prelude::*;

use crate::text::owned;

verus! {

/// The configuration file of the application.
#[derive(Debug, Default)]
pub struct PaceConfig {
    /// General configuration.
    pub general: GeneralConfig,
    /// Configuration of reviews.
    pub reviews: ReviewConfig,
    /// Configuration of exports.
    pub export: ExportConfig,
    /// Configuration of the database; only needed when activities are stored there.
    pub database: Option<DatabaseConfig>,
    /// Configuration of pomodoro sessions.
    pub pomodoro: PomodoroConfig,
    /// Configuration of the inbox.
    pub inbox: InboxConfig,
    /// Configuration of automatic archival.
    pub auto_archival: AutoArchivalConfig,
}

/// General configuration.
#[derive(Debug, Default)]
pub struct GeneralConfig {
    /// How the activity log is stored.
    pub log_storage: String,
    /// The path of the activity log file.
    pub activity_log_file_path: String,
    /// The format of the activity log.
    pub log_format: String,
    /// Whether identifiers of activities are generated.
    pub autogenerate_ids: bool,
    /// The separator between a category and its subcategory.
    pub category_separator: String,
    /// The default priority.
    pub default_priority: String,
}

/// Configuration of reviews.
#[derive(Debug, Default)]
pub struct ReviewConfig {
    /// The format of reviews.
    pub review_format: String,
    /// The directory of review files.
    pub review_directory: String,
}

/// Configuration of exports.
#[derive(Debug, Default)]
pub struct ExportConfig {
    /// Whether exports include tags.
    pub export_include_tags: bool,
    /// Whether exports include descriptions.
    pub export_include_descriptions: bool,
    /// The format of times in exports.
    pub export_time_format: String,
}

/// Configuration of the database.
#[derive(Debug, Default)]
pub struct DatabaseConfig {
    /// The kind of database.
    pub db_type: String,
    /// How to connect to the database.
    pub connection_string: String,
}

/// Configuration of pomodoro sessions, in minutes.
#[derive(Debug, Default, Clone, Copy, PartialEq, Eq)]
pub struct PomodoroConfig {
    pub work_duration_minutes: u32,
    pub break_duration_minutes: u32,
    pub long_break_duration_minutes: u32,
    pub sessions_before_long_break: u32,
}

/// Configuration of the inbox.
#[derive(Debug, Default)]
pub struct InboxConfig {
    /// The largest number of items in the inbox.
    pub max_size: u32,
    /// The default priority of items in the inbox.
    pub default_priority: String,
    /// After how many days items of the inbox are archived.
    pub auto_archive_after_days: u32,
}

/// Configuration of automatic archival.
#[derive(Debug, Default)]
pub struct AutoArchivalConfig {
    /// Whether items are archived automatically.
    pub enabled: bool,
    /// After how many days items are archived.
    pub archive_after_days: u32,
    /// The path of the archive file.
    pub archive_path: String,
}

impl PaceConfig {
    /// The same configuration with another path for the activity log file.
    pub fn with_activity_log(self, activity_log: &str) -> (c: Self)
        ensures
            c.general.activity_log_file_path@ == activity_log@,
            c.general.log_storage == self.general.log_storage,
            c.general.log_format == self.general.log_format,
            c.general.autogenerate_ids == self.general.autogenerate_ids,
            c.general.category_separator == self.general.category_separator,
            c.general.default_priority == self.general.default_priority,
            c.reviews == self.reviews,
            c.export == self.export,
            c.database == self.database,
            c.pomodoro == self.pomodoro,
            c.inbox == self.inbox,
            c.auto_archival == self.auto_archival,
    {
        let mut new_config = self;
        new_config.general.activity_log_file_path = owned(activity_log);
        new_config
    }
}

} // verus!
