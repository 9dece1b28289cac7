//! The paths that the setup assistant works with.

use std::path::PathBuf;

use vstd::prelude::*;

verus! {

/// A path of the file system; what it names is not looked into here.
#[verifier::external_type_specification]
#[verifier::external_body]
pub struct ExPathBuf(PathBuf);

/// Where the user wants the activity log, if given on the command line.
#[derive(Debug, Default)]
pub struct PathOptions {
    /// The directory of the activity log.
    pub activity_log: Option<PathBuf>,
}

impl PathOptions {
    /// The directory of the activity log, if given.
    pub fn activity_log(&self) -> (r: &Option<PathBuf>)
        ensures
            *r == self.activity_log,
    {
        &self.activity_log
    }
}

/// The paths that the setup chose for the configuration and the activity log.
#[derive(Debug, Default)]
pub struct FinalSetupPaths {
    /// The activity log file.
    pub activity_log_path: PathBuf,
    /// The directory of the activity log file.
    pub activity_log_root: PathBuf,
    /// The configuration file, once chosen.
    pub config_path: Option<PathBuf>,
    /// The directory of the configuration file, once chosen.
    pub config_root: Option<PathBuf>,
}

impl FinalSetupPaths {
    /// The paths of a chosen activity log, before the configuration is chosen.
    pub fn with_activity_log(activity_log_path: PathBuf, activity_log_root: PathBuf) -> (p: Self)
        ensures
            p.activity_log_path == activity_log_path,
            p.activity_log_root == activity_log_root,
            p.config_path is None,
            p.config_root is None,
    {
        FinalSetupPaths { activity_log_path, activity_log_root, config_path: None, config_root: None }
    }

    /// The same paths with the chosen configuration file and its directory.
    pub fn with_config(self, config_path: PathBuf, config_root: PathBuf) -> (p: Self)
        ensures
            p.activity_log_path == self.activity_log_path,
            p.activity_log_root == self.activity_log_root,
            p.config_path == Some(config_path),
            p.config_root == Some(config_root),
    {
        FinalSetupPaths {
            activity_log_path: self.activity_log_path,
            activity_log_root: self.activity_log_root,
            config_path: Some(config_path),
            config_root: Some(config_root),
        }
    }

    /// The activity log file.
    pub fn activity_log_path(&self) -> (r: &PathBuf)
        ensures
            *r == self.activity_log_path,
    {
        &self.activity_log_path
    }

    /// The directory of the activity log file.
    pub fn activity_log_root(&self) -> (r: &PathBuf)
        ensures
            *r == self.activity_log_root,
    {
        &self.activity_log_root
    }

    /// The configuration file, if chosen.
    pub fn config_path(&self) -> (r: &Option<PathBuf>)
        ensures
            *r == self.config_path,
    {
        &self.config_path
    }

    /// The directory of the configuration file, if chosen.
    pub fn config_root(&self) -> (r: &Option<PathBuf>)
        ensures
            *r == self.config_root,
    {
        &self.config_root
    }
}

} // verus!
