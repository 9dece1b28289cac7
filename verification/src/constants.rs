//! Names and addresses used across the application.

use vstd::prelude::*;

verus! {

pub const PACE_APP_NAME: &'static str = "pace";

pub const PACE_CONFIG_FILENAME: &'static str = "pace.toml";

pub const PACE_ACTIVITY_LOG_FILENAME: &'static str = "activities.pace.toml";

pub const PACE_DOCS_URL: &'static str = "https://pace.cli.rs/docs";

pub const PACE_DEV_DOCS_URL: &'static str = "https://pace.cli.rs/dev-docs";

pub const PACE_CONFIG_DOCS_URL: &'static str = "https://github.com/pace-rs/pace/blob/main/config/README.md";

} // verus!
