//! How catalog and service operations fail.

use vstd::prelude::*;

use crate::retention::DeletionBlock;

verus! {

/// Why a catalog operation failed.
#[derive(Debug, Clone, PartialEq, Eq)]
pub enum MetadataError {
    /// The bucket does not exist.
    BucketNotFound,
    /// Object Lock still holds the version.
    VersionLocked(DeletionBlock),
    /// The wall clock is behind the recorded high-water mark.
    ClockWentBackwards,
    /// A named total would leave its range.
    CounterOutOfRange,
    /// A stored record could not be encoded or decoded.
    Encoding(String),
    /// The database failed, or contradicts itself.
    Database {
        /// What was being done.
        operation: &'static str,
        /// What was reported.
        reason: String,
    },
}

impl MetadataError {
    /// The database failed during the named operation.
    pub open spec fn during(self, operation: Seq<char>) -> bool {
        self matches MetadataError::Database { operation: failed, .. } && failed@ == operation
    }
}

/// Builds the error for a database failure.
pub(crate) fn backend(operation: &'static str, reason: String) -> (error: MetadataError)
    ensures
        error == (MetadataError::Database { operation, reason }),
{
    MetadataError::Database { operation, reason }
}

/// Why a service operation failed.
#[derive(Debug, Clone, PartialEq, Eq)]
pub enum ServiceError {
    /// No further operation is accepted.
    Unavailable,
    /// The bucket does not exist.
    BucketNotFound,
    /// The object does not exist.
    ObjectNotFound,
    /// The bucket was created without Object Lock.
    ObjectLockNotEnabled,
    /// The bucket has no Object Lock configuration.
    ObjectLockConfigurationNotFound,
    /// The requested configuration is not acceptable.
    InvalidConfiguration(String),
    /// A default retention would end beyond the calendar.
    RetentionOutOfRange,
    /// Object Lock still holds the version.
    ObjectLocked(DeletionBlock),
    /// The clock cannot be trusted to release a retention.
    RetentionClockUnavailable,
    /// The bucket could not be coordinated.
    Coordination,
    /// The catalog failed.
    Metadata(MetadataError),
}

/// How the service reports a catalog failure.
pub open spec fn reported(error: MetadataError) -> ServiceError {
    match error {
        MetadataError::BucketNotFound => ServiceError::BucketNotFound,
        MetadataError::VersionLocked(block) => ServiceError::ObjectLocked(block),
        MetadataError::ClockWentBackwards => ServiceError::RetentionClockUnavailable,
        other => ServiceError::Metadata(other),
    }
}

/// Reports a catalog failure as the service's own.
pub fn map_metadata(error: MetadataError) -> (mapped: ServiceError)
    ensures
        mapped == reported(error),
{
    match error {
        MetadataError::BucketNotFound => ServiceError::BucketNotFound,
        MetadataError::VersionLocked(block) => ServiceError::ObjectLocked(block),
        MetadataError::ClockWentBackwards => ServiceError::RetentionClockUnavailable,
        other => ServiceError::Metadata(other),
    }
}

/// What the service says of a catalog failure: a missing bucket, a version that
/// is held and a clock that went backwards each have a name of their own, and
/// everything else is handed on as it is.
pub proof fn law_catalog_failures_keep_their_meaning(error: MetadataError)
    ensures
        error is BucketNotFound ==> reported(error) is BucketNotFound,
        error matches MetadataError::VersionLocked(block) ==> reported(error)
            == ServiceError::ObjectLocked(block),
        error is ClockWentBackwards ==> reported(error) is RetentionClockUnavailable,
        error is CounterOutOfRange || error is Encoding || error is Database ==> reported(error)
            == ServiceError::Metadata(error),
{
}

/// A failure happened during an operation when it is the database's and names
/// that operation.
pub proof fn law_failure_names_its_operation(error: MetadataError, operation: Seq<char>)
    ensures
        error.during(operation) ==> error is Database && error->operation@ == operation,
        error is Database ==> error.during(error->operation@),
{
}

} // verus!
