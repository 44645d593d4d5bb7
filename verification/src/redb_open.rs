//! How a failed file-format migration is reported to whoever opens a database.

use vstd::prelude::*;

use vstd::string::*;

verus! {

/// How the migration of a database file to the current format failed.
#[derive(Debug, Clone, PartialEq, Eq)]
pub enum MigrationFault {
    /// The storage beneath the database failed.
    Storage,
    /// The migration was not possible, for the reason given.
    Refused(String),
}

/// What the caller that opens the database is told.
#[derive(Debug, Clone, PartialEq, Eq)]
pub enum OpenFailure {
    /// The storage failure itself.
    Storage,
    /// The database is corrupted, in the words given.
    Corrupted(String),
}

/// What a failed migration is reported as.
///
/// A storage failure is passed on as it is. Nothing else can arise: no
/// savepoints are created, and the handle that migrates is the only one to a
/// database just opened. Reporting the rest as corruption keeps the error type
/// usable by every caller rather than widening it for cases that do not occur.
pub fn migration_failure(fault: MigrationFault) -> (failure: OpenFailure)
    ensures
        match fault {
            MigrationFault::Storage => failure == OpenFailure::Storage,
            MigrationFault::Refused(reason) => failure matches OpenFailure::Corrupted(message)
                && message@ == "redb file format migration failed: "@ + reason@,
        },
{
    match fault {
        MigrationFault::Storage => OpenFailure::Storage,
        MigrationFault::Refused(reason) => {
            let mut message: String = "redb file format migration failed: ".to_string();
            message.append(reason.as_str());
            OpenFailure::Corrupted(message)
        },
    }
}

} // verus!
