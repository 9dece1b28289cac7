//! Error kinds of the library.

use vstd::prelude::*;

use crate::id::ActivityGuid;
use crate::time::{PaceDate, PaceDateTime};

verus! {

/// The result of an operation of the library.
pub type PaceResult<T> = Result<T, PaceError>;

/// The result of an operation that may find nothing.
pub type PaceOptResult<T> = PaceResult<Option<T>>;

/// A message for the user.
#[derive(Debug, PartialEq, Eq)]
pub struct UserMessage {
    pub msg: String,
}

impl UserMessage {
    pub fn new(msg: String) -> (m: Self)
        ensures
            m.msg == msg,
    {
        UserMessage { msg }
    }
}

/// The error of an operation of the library.
#[derive(Debug)]
pub struct PaceError(pub PaceErrorKind);

/// What went wrong.
#[derive(Debug)]
pub enum PaceErrorKind {
    /// An error of the activity log.
    ActivityLog(ActivityLogErrorKind),
    /// An error of the activity store.
    ActivityStore(ActivityStoreErrorKind),
    /// An error about times and dates.
    Time(TimeErrorKind),
    /// A time could not be parsed.
    ChronoParse(String),
    /// A duration would be negative.
    ChronoDurationIsNegative,
    /// No configuration file was found from the directory upwards.
    ConfigFileNotFound { current_dir: String, file_name: String },
    /// The parent directory of a path does not exist.
    ParentDirNotFound(String),
    /// An error of the activity log file.
    TomlFile(TomlFileStorageErrorKind),
    /// Storing activities in a database is not available.
    DatabaseStorageNotImplemented,
    /// No path is available.
    NoPathAvailable,
}

/// Errors of the activity log.
#[derive(Debug)]
pub enum ActivityLogErrorKind {
    NoActivitiesFound,
    FailedToReadActivity(ActivityGuid),
    NegativeDuration,
    NoActivityToHold,
    NoUnfinishedActivities,
    ActivityNotFound(ActivityGuid),
    ActivityIdAlreadyInUse(ActivityGuid),
    ActivityIdMismatch(ActivityGuid, ActivityGuid),
    ActivityNotEnded,
    NoActiveActivityFound(ActivityGuid),
    ActivityAlreadyEnded(ActivityGuid),
    ActivityAlreadyArchived(ActivityGuid),
    ActiveActivityFound(ActivityGuid),
    NoHeldActivityFound(ActivityGuid),
    ActivityKindOptionsNotFound(ActivityGuid),
    ParentIdNotSet(ActivityGuid),
    CategoryNotSet(ActivityGuid),
    NoActiveActivityToAdjust,
    FailedToGroupByKeywords,
    NoEndOptionsFound,
}

/// Errors of the storage of activities in a file.
#[derive(Debug)]
pub enum TomlFileStorageErrorKind {
    /// The parent directory of the file does not exist.
    ParentDirNotFound(String),
}

/// Errors of the activity store.
#[derive(Debug)]
pub enum ActivityStoreErrorKind {
    ListActivitiesById,
    GroupByDurationRange,
    GroupByStartDate,
    ListActivitiesWithIntermissions,
    GroupByKeywords,
    GroupByKind,
    ListActivitiesByTimeRange,
    PopulatingCache,
    ListIntermissionsForActivity(ActivityGuid),
    MissingCategoryForActivity(ActivityGuid),
    CreatingFromStorageFailed,
}

/// Errors about times, dates and durations.
#[derive(Debug)]
pub enum TimeErrorKind {
    /// The user's time input could not be parsed.
    ParsingTimeFromUserInputFailed(String),
    /// A start time lies in the future.
    StartTimeInFuture(PaceDateTime),
    /// A duration could not be parsed.
    ParsingDurationFailed(String),
    /// A calendar date does not exist.
    InvalidDate { year: i32, month: u32, day: u32 },
    /// A day lies outside the calendar.
    DateOutOfRange(PaceDate),
    /// A date was expected but not present.
    DateShouldBePresent,
    /// A date could not be parsed.
    ParsingDateFailed(String),
    /// A time range starts after it ends.
    InvalidTimeRange(PaceDateTime, PaceDateTime),
}

impl PaceError {
    /// The kind of the error.
    pub fn into_inner(self) -> (k: PaceErrorKind)
        ensures
            k == self.0,
    {
        self.0
    }

    /// Whether the error says that an activity could not be resumed because it is not
    /// held, has ended or is archived: then a new activity may be begun from it.
    pub fn possible_new_activity_from_resume(&self) -> (b: bool)
        ensures
            b == (self.0 matches PaceErrorKind::ActivityLog(ActivityLogErrorKind::NoHeldActivityFound(_))
                || self.0 matches PaceErrorKind::ActivityLog(ActivityLogErrorKind::ActivityAlreadyEnded(_))
                || self.0 matches PaceErrorKind::ActivityLog(ActivityLogErrorKind::ActivityAlreadyArchived(_))),
    {
        match &self.0 {
            PaceErrorKind::ActivityLog(ActivityLogErrorKind::NoHeldActivityFound(_)) => true,
            PaceErrorKind::ActivityLog(ActivityLogErrorKind::ActivityAlreadyEnded(_)) => true,
            PaceErrorKind::ActivityLog(ActivityLogErrorKind::ActivityAlreadyArchived(_)) => true,
            _ => false,
        }
    }
}

impl From<ActivityLogErrorKind> for PaceError {
    fn from(kind: ActivityLogErrorKind) -> Self {
        PaceError(PaceErrorKind::ActivityLog(kind))
    }
}

impl vstd::std_specs::convert::FromSpecImpl<ActivityLogErrorKind> for PaceError {
    open spec fn obeys_from_spec() -> bool {
        true
    }

    open spec fn from_spec(v: ActivityLogErrorKind) -> Self {
        PaceError(PaceErrorKind::ActivityLog(v))
    }
}

impl From<TimeErrorKind> for PaceError {
    fn from(kind: TimeErrorKind) -> Self {
        PaceError(PaceErrorKind::Time(kind))
    }
}

impl vstd::std_specs::convert::FromSpecImpl<TimeErrorKind> for PaceError {
    open spec fn obeys_from_spec() -> bool {
        true
    }

    open spec fn from_spec(v: TimeErrorKind) -> Self {
        PaceError(PaceErrorKind::Time(v))
    }
}

impl From<ActivityStoreErrorKind> for PaceError {
    fn from(kind: ActivityStoreErrorKind) -> Self {
        PaceError(PaceErrorKind::ActivityStore(kind))
    }
}

impl vstd::std_specs::convert::FromSpecImpl<ActivityStoreErrorKind> for PaceError {
    open spec fn obeys_from_spec() -> bool {
        true
    }

    open spec fn from_spec(v: ActivityStoreErrorKind) -> Self {
        PaceError(PaceErrorKind::ActivityStore(v))
    }
}

} // verus!
