//! The error envelope every operation reports: a stable code, a message, whether a
//! retry can help, structured details and the process exit code.
use vstd::prelude::*;

use crate::text::owned;

verus! {

/// Stable machine-readable error codes.
#[derive(Debug, Clone, Copy, PartialEq, Eq, Structural)]
pub enum ErrorCode {
    InvalidInput,
    NotFound,
    VersionConflict,
    SessionConflict,
    ConstraintViolation,
    DatabaseUnavailable,
    DatabaseBusy,
    UnsupportedSchemaVersion,
    PathIdentityUnknown,
    FilesystemUnavailable,
    HookEventConflict,
    HookCapacityReached,
}

impl ErrorCode {
    /// The wire spelling of the code.
    pub fn as_str(&self) -> (r: &'static str)
        ensures
            r@ == self.spec_name(),
    {
        match self {
            ErrorCode::InvalidInput => "INVALID_INPUT",
            ErrorCode::NotFound => "NOT_FOUND",
            ErrorCode::VersionConflict => "VERSION_CONFLICT",
            ErrorCode::SessionConflict => "SESSION_CONFLICT",
            ErrorCode::ConstraintViolation => "CONSTRAINT_VIOLATION",
            ErrorCode::DatabaseUnavailable => "DATABASE_UNAVAILABLE",
            ErrorCode::DatabaseBusy => "DATABASE_BUSY",
            ErrorCode::UnsupportedSchemaVersion => "UNSUPPORTED_SCHEMA_VERSION",
            ErrorCode::PathIdentityUnknown => "PATH_IDENTITY_UNKNOWN",
            ErrorCode::FilesystemUnavailable => "FILESYSTEM_UNAVAILABLE",
            ErrorCode::HookEventConflict => "HOOK_EVENT_CONFLICT",
            ErrorCode::HookCapacityReached => "HOOK_CAPACITY_REACHED",
        }
    }

    pub open spec fn spec_name(self) -> Seq<char> {
        match self {
            ErrorCode::InvalidInput => "INVALID_INPUT"@,
            ErrorCode::NotFound => "NOT_FOUND"@,
            ErrorCode::VersionConflict => "VERSION_CONFLICT"@,
            ErrorCode::SessionConflict => "SESSION_CONFLICT"@,
            ErrorCode::ConstraintViolation => "CONSTRAINT_VIOLATION"@,
            ErrorCode::DatabaseUnavailable => "DATABASE_UNAVAILABLE"@,
            ErrorCode::DatabaseBusy => "DATABASE_BUSY"@,
            ErrorCode::UnsupportedSchemaVersion => "UNSUPPORTED_SCHEMA_VERSION"@,
            ErrorCode::PathIdentityUnknown => "PATH_IDENTITY_UNKNOWN"@,
            ErrorCode::FilesystemUnavailable => "FILESYSTEM_UNAVAILABLE"@,
            ErrorCode::HookEventConflict => "HOOK_EVENT_CONFLICT"@,
            ErrorCode::HookCapacityReached => "HOOK_CAPACITY_REACHED"@,
        }
    }
}

/// Structured error details; each variant is the payload of one family of errors.
#[derive(Debug, Clone)]
pub enum ErrorDetails {
    Invalid { field: String, reason: String },
    NotFound { entity_type: String, id: String },
    Version { expected: i64, current: i64 },
    Session { current_session: Option<String>, requested: String },
    Constraint { constraint: String },
    Reason { reason: String },
    Busy { timeout_ms: i64 },
    StoredData { reason: String, column_index: u64, sqlite_type: String },
    UnsupportedSchema { database_version: i64, supported_version: i64 },
    Path { input_path: Option<String>, reason: String },
    ProjectRevision { project_id: i64, expected: i64, current: i64 },
    /// A stale rule revision, with the rule as currently stored.
    RuleRevision { rule_id: i64, expected: i64, current: i64, rule: crate::rules::RuleView },
    Entity { entity_type: String },
    Sequence { sequence: i64 },
    Limit { limit: i64 },
}

#[derive(Debug, Clone)]
pub struct ErrorBody {
    pub code: ErrorCode,
    pub message: String,
    pub retryable: bool,
    pub details: ErrorDetails,
}

#[derive(Debug, Clone)]
pub struct AppError {
    pub body: ErrorBody,
    pub exit_code: i32,
}

pub type AppResult<T> = Result<T, AppError>;

/// Optional text viewed as an optional character sequence.
pub open spec fn opt_view(o: Option<String>) -> Option<Seq<char>> {
    match o {
        Some(s) => Some(s@),
        None => None,
    }
}

impl AppError {
    /// `self` is the input-validation error for `field` with `reason`.
    pub open spec fn is_invalid(self, field: Seq<char>, reason: Seq<char>) -> bool {
        &&& self.body.code == ErrorCode::InvalidInput
        &&& self.body.message@ == "input validation failed"@
        &&& !self.body.retryable
        &&& self.exit_code == 2
        &&& self.body.details matches ErrorDetails::Invalid { field: f, reason: r }
        &&& f@ == field
        &&& r@ == reason
    }

    pub open spec fn is_not_found(self, entity_type: Seq<char>, id: Seq<char>) -> bool {
        &&& self.body.code == ErrorCode::NotFound
        &&& self.body.message@ == entity_type + " was not found"@
        &&& !self.body.retryable
        &&& self.exit_code == 2
        &&& self.body.details matches ErrorDetails::NotFound { entity_type: e, id: i }
        &&& e@ == entity_type
        &&& i@ == id
    }

    pub open spec fn is_version(self, expected: i64, current: i64) -> bool {
        &&& self.body.code == ErrorCode::VersionConflict
        &&& self.body.message@ == "task version does not match"@
        &&& self.body.retryable
        &&& self.exit_code == 4
        &&& self.body.details == (ErrorDetails::Version { expected, current })
    }

    pub open spec fn is_session(self, current: Option<Seq<char>>, requested: Seq<char>) -> bool {
        &&& self.body.code == ErrorCode::SessionConflict
        &&& self.body.message@ == "session cannot become the current task session"@
        &&& !self.body.retryable
        &&& self.exit_code == 4
        &&& self.body.details matches ErrorDetails::Session { current_session: c, requested: r }
        &&& opt_view(c) == current
        &&& r@ == requested
    }

    pub open spec fn is_constraint(self, constraint: Seq<char>) -> bool {
        &&& self.body.code == ErrorCode::ConstraintViolation
        &&& self.body.message@ == "database constraint was rejected"@
        &&& !self.body.retryable
        &&& self.exit_code == 4
        &&& self.body.details matches ErrorDetails::Constraint { constraint: c }
        &&& c@ == constraint
    }

    /// Input validation failure: exit code 2, not retryable.
    pub fn invalid(field: &str, reason: &str) -> (e: Self)
        ensures
            e.is_invalid(field@, reason@),
    {
        AppError {
            body: ErrorBody {
                code: ErrorCode::InvalidInput,
                message: owned("input validation failed"),
                retryable: false,
                details: ErrorDetails::Invalid { field: owned(field), reason: owned(reason) },
            },
            exit_code: 2,
        }
    }

    /// A referenced entity does not exist: exit code 2.
    pub fn not_found(entity_type: &str, id: &str) -> (e: Self)
        ensures
            e.is_not_found(entity_type@, id@),
    {
        let message = owned(entity_type).concat(" was not found");
        AppError {
            body: ErrorBody {
                code: ErrorCode::NotFound,
                message,
                retryable: false,
                details: ErrorDetails::NotFound { entity_type: owned(entity_type), id: owned(id) },
            },
            exit_code: 2,
        }
    }

    /// Compare-and-swap failure on a task version: retryable, exit code 4.
    pub fn version(expected: i64, current: i64) -> (e: Self)
        ensures
            e.is_version(expected, current),
    {
        AppError {
            body: ErrorBody {
                code: ErrorCode::VersionConflict,
                message: owned("task version does not match"),
                retryable: true,
                details: ErrorDetails::Version { expected, current },
            },
            exit_code: 4,
        }
    }

    /// A session cannot become the task's current session: exit code 4.
    pub fn session(current: Option<&str>, requested: &str) -> (e: Self)
        ensures
            e.is_session(
                match current {
                    Some(c) => Some(c@),
                    None => None,
                },
                requested@,
            ),
    {
        let current = match current {
            Some(c) => Some(owned(c)),
            None => None,
        };
        AppError {
            body: ErrorBody {
                code: ErrorCode::SessionConflict,
                message: owned("session cannot become the current task session"),
                retryable: false,
                details: ErrorDetails::Session { current_session: current, requested: owned(requested) },
            },
            exit_code: 4,
        }
    }

    /// A rule of the data model was violated: exit code 4.
    pub fn constraint(constraint: &str) -> (e: Self)
        ensures
            e.is_constraint(constraint@),
    {
        AppError {
            body: ErrorBody {
                code: ErrorCode::ConstraintViolation,
                message: owned("database constraint was rejected"),
                retryable: false,
                details: ErrorDetails::Constraint { constraint: owned(constraint) },
            },
            exit_code: 4,
        }
    }

    /// Assembles an error from its parts.
    pub fn new(code: ErrorCode, message: &str, retryable: bool, details: ErrorDetails, exit_code: i32) -> (e: Self)
        ensures
            e.body.code == code,
            e.body.message@ == message@,
            e.body.retryable == retryable,
            e.body.details == details,
            e.exit_code == exit_code,
    {
        AppError {
            body: ErrorBody { code, message: owned(message), retryable, details },
            exit_code,
        }
    }
}


/// What went wrong in a SQLite call, as the caller observed it.
#[derive(Debug, Clone)]
pub enum SqliteFailure {
    /// A stored value could not be converted to the expected type.
    Conversion { column: u64, sqlite_type: String, reason: String },
    /// The database stayed busy past the busy timeout.
    Busy,
    /// The database stayed locked past the busy timeout.
    Locked,
    /// A constraint was rejected; `message` is SQLite's message when it gave one.
    Constraint { message: Option<String>, failure: String },
    /// Any other failure, with its display text.
    Other { text: String },
}

/// What went wrong when opening the store.
#[derive(Debug, Clone)]
pub enum StorageFailure {
    UnsupportedSchema { database_version: i64, supported_version: i64 },
    Sqlite(SqliteFailure),
    Io { reason: String },
}

/// How a path could not be resolved.
#[derive(Debug, Clone)]
pub enum PathError {
    PathIdentity(String),
    Io(String),
}

impl AppError {
    /// `e` is the error reported for the SQLite failure `f`.
    pub open spec fn reports_sqlite(e: AppError, f: SqliteFailure) -> bool {
            match f {
                SqliteFailure::Conversion { column, sqlite_type, reason } => {
                    &&& e.body.code == ErrorCode::DatabaseUnavailable
                    &&& e.body.message@ == "stored database data is invalid"@
                    &&& !e.body.retryable
                    &&& e.exit_code == 10
                    &&& e.body.details == (ErrorDetails::StoredData {
                        reason,
                        column_index: column,
                        sqlite_type,
                    })
                },
                SqliteFailure::Busy | SqliteFailure::Locked => {
                    &&& e.body.code == ErrorCode::DatabaseBusy
                    &&& e.body.message@ == "database remained busy past the timeout"@
                    &&& e.body.retryable
                    &&& e.exit_code == 4
                    &&& e.body.details == (ErrorDetails::Busy { timeout_ms: 5000 })
                },
                SqliteFailure::Constraint { message, failure } => e.is_constraint(
                    match message {
                        Some(m) => m@,
                        None => failure@,
                    },
                ),
                SqliteFailure::Other { text } => {
                    &&& e.body.code == ErrorCode::DatabaseUnavailable
                    &&& e.body.message@ == "database operation failed"@
                    &&& !e.body.retryable
                    &&& e.exit_code == 10
                    &&& e.body.details == (ErrorDetails::Reason { reason: text })
                },
            }
    }

    pub fn from_sqlite(failure: SqliteFailure) -> (e: Self)
        ensures
            Self::reports_sqlite(e, failure),
    {
        match failure {
            SqliteFailure::Conversion { column, sqlite_type, reason } => AppError::new(
                ErrorCode::DatabaseUnavailable,
                "stored database data is invalid",
                false,
                ErrorDetails::StoredData { reason, column_index: column, sqlite_type },
                10,
            ),
            SqliteFailure::Busy | SqliteFailure::Locked => AppError::new(
                ErrorCode::DatabaseBusy,
                "database remained busy past the timeout",
                true,
                ErrorDetails::Busy { timeout_ms: 5000 },
                4,
            ),
            SqliteFailure::Constraint { message, failure } => match message {
                Some(m) => AppError::constraint(m.as_str()),
                None => AppError::constraint(failure.as_str()),
            },
            SqliteFailure::Other { text } => AppError::new(
                ErrorCode::DatabaseUnavailable,
                "database operation failed",
                false,
                ErrorDetails::Reason { reason: text },
                10,
            ),
        }
    }

    /// The error reported when the store cannot be opened.
    pub fn from_storage(failure: StorageFailure) -> (e: Self)
        ensures
            match failure {
                StorageFailure::UnsupportedSchema { database_version, supported_version } => {
                    &&& e.body.code == ErrorCode::UnsupportedSchemaVersion
                    &&& e.body.message@
                        == "database schema is incompatible; use a new database for this build"@
                    &&& !e.body.retryable
                    &&& e.exit_code == 2
                    &&& e.body.details == (ErrorDetails::UnsupportedSchema {
                        database_version,
                        supported_version,
                    })
                },
                StorageFailure::Sqlite(f) => Self::reports_sqlite(e, f),
                StorageFailure::Io { reason } => {
                    &&& e.body.code == ErrorCode::DatabaseUnavailable
                    &&& e.body.message@ == "database path is unavailable"@
                    &&& !e.body.retryable
                    &&& e.exit_code == 10
                    &&& e.body.details == (ErrorDetails::Reason { reason })
                },
            },
    {
        match failure {
            StorageFailure::UnsupportedSchema { database_version, supported_version } => AppError::new(
                ErrorCode::UnsupportedSchemaVersion,
                "database schema is incompatible; use a new database for this build",
                false,
                ErrorDetails::UnsupportedSchema { database_version, supported_version },
                2,
            ),
            StorageFailure::Sqlite(f) => AppError::from_sqlite(f),
            StorageFailure::Io { reason } => AppError::new(
                ErrorCode::DatabaseUnavailable,
                "database path is unavailable",
                false,
                ErrorDetails::Reason { reason },
                10,
            ),
        }
    }

    /// The error reported for a path that could not be resolved.
    pub fn from_path(error: PathError, input_path: Option<&str>) -> (e: Self)
        ensures
            e.exit_code == 5,
            !e.body.retryable,
            match error {
                PathError::PathIdentity(reason) => {
                    &&& e.body.code == ErrorCode::PathIdentityUnknown
                    &&& e.body.message@ == "path identity could not be established"@
                    &&& e.body.details matches ErrorDetails::Path { input_path: p, reason: r }
                    &&& opt_view(p) == (match input_path { Some(q) => Some(q@), None => None })
                    &&& r == reason
                },
                PathError::Io(reason) => {
                    &&& e.body.code == ErrorCode::FilesystemUnavailable
                    &&& e.body.message@ == "filesystem operation failed"@
                    &&& e.body.details matches ErrorDetails::Path { input_path: p, reason: r }
                    &&& opt_view(p) == (match input_path { Some(q) => Some(q@), None => None })
                    &&& r == reason
                },
            },
    {
        let input = match input_path {
            Some(q) => Some(owned(q)),
            None => None,
        };
        match error {
            PathError::PathIdentity(reason) => AppError::new(
                ErrorCode::PathIdentityUnknown,
                "path identity could not be established",
                false,
                ErrorDetails::Path { input_path: input, reason },
                5,
            ),
            PathError::Io(reason) => AppError::new(
                ErrorCode::FilesystemUnavailable,
                "filesystem operation failed",
                false,
                ErrorDetails::Path { input_path: input, reason },
                5,
            ),
        }
    }
}

} // verus!
