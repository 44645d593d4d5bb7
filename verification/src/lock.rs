//! Object Lock policy: who may release a retained version, and on what clock.
//!
//! The catalog refuses, inside its transaction, to remove a version that a
//! retention still holds. This module decides the policy around that: what lock
//! a new version is born with, what a requested change does to a lock, and that
//! every governance bypass is recorded.
//!
//! A request is a [`LockFlow`]: it names the next thing to be done as a
//! [`LockAction`] and moves on when told what came of it as a [`LockEvent`].

use vstd::prelude::*;
use vstd::string::*;

use crate::audit::{bypass_event, AuditEvent, AuditEventId, AuditResult, BypassNote};
use crate::error::{map_metadata, MetadataError, ServiceError};
use crate::retention::{ObjectLockConfiguration, ObjectLockState, Retention, RetentionOutOfRange};
use crate::time::Timestamp;
use crate::tx::LockRelease;
use crate::types::{Bucket, BucketId, ObjectKey, VersionId};

verus! {

/// Who is asking, and whether they carry an authorized governance bypass.
///
/// The bypass flag means the permission was already checked: a caller without
/// it is refused before a context is made, and can never set it.
#[derive(Debug, Clone, PartialEq, Eq)]
pub struct LockContext {
    /// Stable non-secret principal name, as it appears in audit records.
    pub principal: String,
    /// Whether an authorized governance bypass was presented.
    pub bypass_governance: bool,
}

impl LockContext {
    /// Builds a context for an ordinary caller presenting no bypass.
    #[must_use]
    pub fn principal(principal: String) -> (context: LockContext)
        ensures
            context == (LockContext { principal, bypass_governance: false }),
    {
        LockContext { principal, bypass_governance: false }
    }

    /// Builds a context for an internal component, which never bypasses.
    ///
    /// A background worker is not a person exercising a permission, so it gets
    /// no bypass regardless of what it is scanning.
    #[must_use]
    pub fn system(component: &str) -> (context: LockContext)
        ensures
            context.principal@ == "system:"@ + component@,
            !context.bypass_governance,
    {
        let mut principal: String = "system:".to_string();
        principal.append(component);
        LockContext::principal(principal)
    }

    /// Returns the same context with an authorized bypass applied.
    #[must_use]
    pub fn with_governance_bypass(self, bypass: bool) -> (context: LockContext)
        ensures
            context == (LockContext { principal: self.principal, bypass_governance: bypass }),
    {
        LockContext { principal: self.principal, bypass_governance: bypass }
    }
}

/// Deployment-wide Object Lock settings.
#[derive(Debug, Clone, Copy, PartialEq, Eq)]
pub struct LockPolicy {
    /// How far the clock may lie behind the recorded high-water mark.
    pub clock_tolerance_seconds: u32,
    /// Whether a durable audit trail is configured.
    pub audited: bool,
}

/// What becomes of an exercised bypass.
#[derive(Debug, Clone, PartialEq, Eq)]
pub enum BypassRecord {
    /// The record is appended to the durable audit trail.
    Append(AuditEvent),
    /// There is no trail, so the bypass is surfaced as a warning rather than
    /// dropped quietly.
    Warn,
}

/// The clock and bypass inputs of an operation at `now`.
pub open spec fn release_of(
    clock_tolerance_seconds: u32,
    bypass_governance: bool,
    now: Timestamp,
) -> LockRelease {
    LockRelease { observed_at: now, clock_tolerance_seconds, bypass_governance }
}

impl LockPolicy {
    /// Builds the clock and bypass inputs for one operation.
    pub fn release(&self, context: &LockContext, now: Timestamp) -> (release: LockRelease)
        ensures
            release == release_of(self.clock_tolerance_seconds, context.bypass_governance, now),
    {
        LockRelease::new(now, self.clock_tolerance_seconds).with_governance_bypass(
            context.bypass_governance,
        )
    }

    /// Decides how an exercised governance bypass is recorded.
    ///
    /// A bypass is the one way a retained version leaves before its date, so it
    /// is recorded whether or not the operation that used it went on to succeed.
    pub fn record_bypass(
        &self,
        note: &BypassNote,
        event_id: AuditEventId,
        now: Timestamp,
        version_text: String,
    ) -> (record: BypassRecord)
        ensures
            self.audited ==> (record matches BypassRecord::Append(event) && {
                &&& event.event_id == event_id
                &&& event.timestamp == now
                &&& crate::audit::records(event, *note, version_text@)
            }),
            !self.audited ==> record == BypassRecord::Warn,
    {
        if self.audited {
            BypassRecord::Append(bypass_event(note, event_id, now, version_text))
        } else {
            BypassRecord::Warn
        }
    }
}

/// The Object Lock state of one named version.
#[derive(Debug, Clone, Copy, PartialEq, Eq)]
pub struct VersionLock {
    /// Version the state belongs to.
    pub version_id: VersionId,
    /// Retention and legal hold currently in force.
    pub state: ObjectLockState,
}

/// A change requested of one version's lock.
#[derive(Debug, Clone, Copy, PartialEq, Eq)]
pub enum LockChange {
    /// Replace or remove the retention.
    Retention(Option<Retention>),
    /// Place or remove the legal hold.
    LegalHold(bool),
}

impl LockChange {
    /// The lock that the change makes of the one in force.
    pub open spec fn applied(self, current: ObjectLockState) -> ObjectLockState {
        match self {
            LockChange::Retention(retention) => ObjectLockState { retention, ..current },
            LockChange::LegalHold(legal_hold) => ObjectLockState { legal_hold, ..current },
        }
    }

    /// What the change is called in an audit record.
    pub open spec fn operation_name(self) -> &'static str {
        match self {
            LockChange::Retention(_) => "object-lock.put-retention",
            LockChange::LegalHold(_) => "object-lock.put-legal-hold",
        }
    }

    /// Returns the lock that the change makes of the one in force.
    pub fn apply(&self, current: ObjectLockState) -> (requested: ObjectLockState)
        ensures
            requested == self.applied(current),
    {
        match self {
            LockChange::Retention(retention) => ObjectLockState {
                retention: *retention,
                legal_hold: current.legal_hold,
            },
            LockChange::LegalHold(legal_hold) => current.with_legal_hold(*legal_hold),
        }
    }

    /// Returns what the change is called in an audit record.
    pub fn operation(&self) -> (name: &'static str)
        ensures
            name == self.operation_name(),
    {
        match self {
            LockChange::Retention(_) => "object-lock.put-retention",
            LockChange::LegalHold(_) => "object-lock.put-legal-hold",
        }
    }
}

/// The note of a bypass, which is there exactly when one was presented.
pub open spec fn noted(
    context: LockContext,
    operation: &'static str,
    bucket: String,
    key: ObjectKey,
    version: VersionId,
    succeeded: bool,
) -> Option<BypassNote> {
    if context.bypass_governance {
        Some(
            BypassNote {
                principal: context.principal,
                operation,
                bucket,
                key,
                version,
                result: if succeeded {
                    AuditResult::Success
                } else {
                    AuditResult::Denied
                },
            },
        )
    } else {
        None
    }
}

/// Returns the note of a bypass that an operation used, whether or not the
/// operation succeeded; none where the caller presented no bypass.
pub fn note_bypass(
    context: &LockContext,
    operation: &'static str,
    bucket: &String,
    key: &ObjectKey,
    version: VersionId,
    succeeded: bool,
) -> (note: Option<BypassNote>)
    ensures
        note == noted(*context, operation, *bucket, *key, version, succeeded),
{
    if !context.bypass_governance {
        return None;
    }
    Some(
        BypassNote {
            principal: context.principal.clone(),
            operation,
            bucket: bucket.clone(),
            key: ObjectKey(key.0.clone()),
            version,
            result: if succeeded {
                AuditResult::Success
            } else {
                AuditResult::Denied
            },
        },
    )
}

/// A change of one version's lock, once the version is known.
#[derive(Debug, Clone, PartialEq, Eq)]
pub struct ChangeJob {
    /// The bucket's name, for the audit record.
    pub bucket_name: String,
    /// The bucket.
    pub bucket: BucketId,
    /// The key the version belongs to.
    pub key: ObjectKey,
    /// The version to be changed.
    pub version: VersionId,
    /// What is requested.
    pub change: LockChange,
    /// Who requests it.
    pub context: LockContext,
}

/// What is to be done with a version's lock once the version is known.
#[derive(Debug, Clone, PartialEq, Eq)]
pub enum VersionTask {
    /// Report it.
    Report,
    /// Change it.
    Change {
        /// What is requested.
        change: LockChange,
        /// Who requests it.
        context: LockContext,
    },
}

/// A request that counts against the operation limit.
#[derive(Debug, Clone, PartialEq, Eq)]
pub enum LockRequest {
    /// Report a bucket's configuration.
    Configuration,
    /// Replace a bucket's default retention.
    SetConfiguration(ObjectLockConfiguration),
    /// Report or change the lock of one version, current by default.
    Version {
        /// The key the version belongs to.
        key: ObjectKey,
        /// The version, where one is named.
        version: Option<VersionId>,
        /// What is to be done with its lock.
        task: VersionTask,
    },
}

/// What a request is answered with.
#[derive(Debug, Clone, PartialEq, Eq)]
pub enum LockReply {
    /// A bucket's configuration.
    Configuration(ObjectLockConfiguration),
    /// The bucket as it was written.
    Bucket(Bucket),
    /// The lock of a version that the request resolved.
    Version(VersionLock),
    /// The lock of a version that was already known.
    State(ObjectLockState),
    /// The clock was observed.
    Observed,
}

/// Where a request stands.
#[derive(Debug, PartialEq, Eq)]
pub enum LockFlow {
    /// A configuration is being validated.
    Validating {
        /// The bucket it is meant for.
        bucket_name: String,
        /// The configuration.
        configuration: ObjectLockConfiguration,
    },
    /// The request is being counted and waits for a permit.
    Admitting {
        /// The bucket it concerns.
        bucket_name: String,
        /// What is requested.
        request: LockRequest,
    },
    /// The bucket is being looked up.
    FindingBucket {
        /// The bucket's name.
        bucket_name: String,
        /// What is requested.
        request: LockRequest,
    },
    /// The bucket is being locked against every other operation.
    LockingForConfiguration {
        /// The bucket.
        bucket: BucketId,
        /// What will be written.
        configuration: ObjectLockConfiguration,
    },
    /// The configuration is being written.
    WritingConfiguration {
        /// The bucket.
        bucket: BucketId,
        /// What is written.
        configuration: ObjectLockConfiguration,
    },
    /// The key's current version is being looked up.
    FindingVersion {
        /// The bucket's name.
        bucket_name: String,
        /// The bucket.
        bucket: BucketId,
        /// The key.
        key: ObjectKey,
        /// What is to be done with the version's lock.
        task: VersionTask,
    },
    /// A version's lock is being read, to be reported with the version.
    ReadingVersion {
        /// The version.
        version: VersionId,
    },
    /// The lock of a version that was already known is being read.
    ReadingState {
        /// The version.
        version: VersionId,
    },
    /// The bucket is being locked against a change of its configuration.
    LockingForChange {
        /// The change.
        job: ChangeJob,
    },
    /// The lock in force is being read, to be changed.
    ReadingForChange {
        /// The change.
        job: ChangeJob,
    },
    /// The clock is being read for a change.
    Timing {
        /// The change.
        job: ChangeJob,
        /// The lock it makes.
        requested: ObjectLockState,
    },
    /// The changed lock is being written.
    WritingLock {
        /// The change.
        job: ChangeJob,
        /// The lock it makes.
        requested: ObjectLockState,
        /// On what clock and bypass the catalog judges it.
        release: LockRelease,
    },
    /// The bypass that a change used is being recorded.
    RecordingBypass {
        /// What is recorded.
        note: BypassNote,
        /// What the request will be answered with.
        reply: Result<LockReply, ServiceError>,
    },
    /// The clock is being read for its own sake.
    ReadingClock,
    /// The high-water mark is being advanced.
    ObservingClock {
        /// The clock that was read.
        release: LockRelease,
    },
    /// The request is answered.
    Finished {
        /// The answer.
        reply: Result<LockReply, ServiceError>,
    },
}

/// The next thing a request needs done.
#[derive(Debug, Clone, PartialEq, Eq)]
pub enum LockAction {
    /// Judge whether a configuration is acceptable.
    Validate(ObjectLockConfiguration),
    /// Count the request and acquire a permit for it.
    Admit,
    /// Look a bucket up by name.
    FindBucket(String),
    /// Look up the current version of a key.
    FindVersion(BucketId, ObjectKey),
    /// Lock a bucket, shared or exclusively, until the request is answered.
    LockBucket {
        /// The bucket.
        bucket: BucketId,
        /// Whether every other operation is kept out.
        exclusive: bool,
    },
    /// Replace a bucket's configuration.
    WriteConfiguration(BucketId, ObjectLockConfiguration),
    /// Read the lock of a version.
    ReadLock(VersionId),
    /// Read the clock.
    ReadClock,
    /// Write the lock of a version.
    WriteLock {
        /// The bucket.
        bucket: BucketId,
        /// The key the version belongs to.
        key: ObjectKey,
        /// The version.
        version: VersionId,
        /// The lock.
        requested: ObjectLockState,
        /// On what clock and bypass the catalog judges it.
        release: LockRelease,
    },
    /// Record a bypass.
    RecordBypass(BypassNote),
    /// Advance the high-water mark.
    ObserveClock(LockRelease),
    /// Nothing: the request is answered.
    Done,
}

/// What came of an action.
#[derive(Debug, PartialEq, Eq)]
pub enum LockEvent {
    /// The configuration was judged; a refusal says why.
    Validated(Result<(), String>),
    /// The request was counted, and this says whether a permit was given.
    Admitted(bool),
    /// The bucket was looked up.
    BucketFound(Result<Option<Bucket>, MetadataError>),
    /// The current version was looked up.
    VersionFound(Result<Option<VersionId>, MetadataError>),
    /// The bucket was locked, or could not be.
    BucketLocked(Result<(), ServiceError>),
    /// The configuration was written.
    ConfigurationWritten(Result<Bucket, MetadataError>),
    /// The lock was read.
    LockRead(Result<ObjectLockState, MetadataError>),
    /// The clock was read.
    ClockRead(Timestamp),
    /// The lock was written.
    LockWritten(Result<ObjectLockState, MetadataError>),
    /// An attempt was made to record the bypass. Whether it worked does not
    /// change the answer.
    BypassRecorded,
    /// The high-water mark was advanced.
    ClockObserved(Result<(), MetadataError>),
}

/// The request is refused.
pub open spec fn refused(error: ServiceError) -> LockFlow {
    LockFlow::Finished { reply: Err(error) }
}

/// The request is granted.
pub open spec fn granted(reply: LockReply) -> LockFlow {
    LockFlow::Finished { reply: Ok(reply) }
}

/// What follows once the version is known.
pub open spec fn with_version(
    bucket_name: String,
    bucket: BucketId,
    key: ObjectKey,
    version: VersionId,
    task: VersionTask,
) -> LockFlow {
    match task {
        VersionTask::Report => LockFlow::ReadingVersion { version },
        VersionTask::Change { change, context } => LockFlow::LockingForChange {
            job: ChangeJob { bucket_name, bucket, key, version, change, context },
        },
    }
}

/// What follows once the bucket is known. A bucket without Object Lock has no
/// configuration to report and no lock to read or change; replacing its
/// configuration is left to the catalog to judge.
pub open spec fn with_bucket(bucket_name: String, bucket: Bucket, request: LockRequest) -> LockFlow {
    match request {
        LockRequest::Configuration => match bucket.object_lock {
            Some(configuration) => granted(LockReply::Configuration(configuration)),
            None => refused(ServiceError::ObjectLockConfigurationNotFound),
        },
        LockRequest::SetConfiguration(configuration) => LockFlow::LockingForConfiguration {
            bucket: bucket.id,
            configuration,
        },
        LockRequest::Version { key, version, task } => if bucket.object_lock is None {
            refused(ServiceError::ObjectLockNotEnabled)
        } else {
            match version {
                Some(version) => with_version(bucket_name, bucket.id, key, version, task),
                None => LockFlow::FindingVersion { bucket_name, bucket: bucket.id, key, task },
            }
        },
    }
}

/// What a change is answered with once its write came back.
pub open spec fn change_reply(
    version: VersionId,
    written: Result<ObjectLockState, MetadataError>,
) -> Result<LockReply, ServiceError> {
    match written {
        Ok(state) => Ok(LockReply::Version(VersionLock { version_id: version, state })),
        Err(error) => Err(crate::error::reported(error)),
    }
}

/// What follows once a change's write came back: a bypass is recorded before
/// the request is answered, whatever the write came to.
pub open spec fn after_write(
    job: ChangeJob,
    written: Result<ObjectLockState, MetadataError>,
) -> LockFlow {
    let reply = change_reply(job.version, written);
    match noted(
        job.context,
        job.change.operation_name(),
        job.bucket_name,
        job.key,
        job.version,
        written is Ok,
    ) {
        Some(note) => LockFlow::RecordingBypass { note, reply },
        None => LockFlow::Finished { reply },
    }
}

impl LockFlow {
    /// The next thing the request needs done.
    pub open spec fn wants(self) -> LockAction {
        match self {
            LockFlow::Validating { configuration, .. } => LockAction::Validate(configuration),
            LockFlow::Admitting { .. } => LockAction::Admit,
            LockFlow::FindingBucket { bucket_name, .. } => LockAction::FindBucket(bucket_name),
            LockFlow::LockingForConfiguration { bucket, .. } => LockAction::LockBucket {
                bucket,
                exclusive: true,
            },
            LockFlow::WritingConfiguration { bucket, configuration } => {
                LockAction::WriteConfiguration(bucket, configuration)
            },
            LockFlow::FindingVersion { bucket, key, .. } => LockAction::FindVersion(bucket, key),
            LockFlow::ReadingVersion { version } => LockAction::ReadLock(version),
            LockFlow::ReadingState { version } => LockAction::ReadLock(version),
            LockFlow::LockingForChange { job } => LockAction::LockBucket {
                bucket: job.bucket,
                exclusive: false,
            },
            LockFlow::ReadingForChange { job } => LockAction::ReadLock(job.version),
            LockFlow::Timing { .. } => LockAction::ReadClock,
            LockFlow::WritingLock { job, requested, release } => LockAction::WriteLock {
                bucket: job.bucket,
                key: job.key,
                version: job.version,
                requested,
                release,
            },
            LockFlow::RecordingBypass { note, .. } => LockAction::RecordBypass(note),
            LockFlow::ReadingClock => LockAction::ReadClock,
            LockFlow::ObservingClock { release } => LockAction::ObserveClock(release),
            LockFlow::Finished { .. } => LockAction::Done,
        }
    }

    /// Where the request stands after an event. An event that answers something
    /// other than what the request waits for changes nothing.
    pub open spec fn after(self, event: LockEvent, clock_tolerance_seconds: u32) -> LockFlow {
        match (self, event) {
            (
                LockFlow::Validating { bucket_name, configuration },
                LockEvent::Validated(judged),
            ) => match judged {
                Ok(_) => LockFlow::Admitting {
                    bucket_name,
                    request: LockRequest::SetConfiguration(configuration),
                },
                Err(reason) => refused(ServiceError::InvalidConfiguration(reason)),
            },
            (LockFlow::Admitting { bucket_name, request }, LockEvent::Admitted(permitted)) => {
                if permitted {
                    LockFlow::FindingBucket { bucket_name, request }
                } else {
                    refused(ServiceError::Unavailable)
                }
            },
            (LockFlow::FindingBucket { bucket_name, request }, LockEvent::BucketFound(found)) => {
                match found {
                    Ok(Some(bucket)) => with_bucket(bucket_name, bucket, request),
                    Ok(None) => refused(ServiceError::BucketNotFound),
                    Err(error) => refused(ServiceError::Metadata(error)),
                }
            },
            (
                LockFlow::LockingForConfiguration { bucket, configuration },
                LockEvent::BucketLocked(locked),
            ) => match locked {
                Ok(_) => LockFlow::WritingConfiguration { bucket, configuration },
                Err(error) => refused(error),
            },
            (
                LockFlow::WritingConfiguration { .. },
                LockEvent::ConfigurationWritten(written),
            ) => match written {
                Ok(bucket) => granted(LockReply::Bucket(bucket)),
                Err(error) => refused(crate::error::reported(error)),
            },
            (
                LockFlow::FindingVersion { bucket_name, bucket, key, task },
                LockEvent::VersionFound(found),
            ) => match found {
                Ok(Some(version)) => with_version(bucket_name, bucket, key, version, task),
                Ok(None) => refused(ServiceError::ObjectNotFound),
                Err(error) => refused(crate::error::reported(error)),
            },
            (LockFlow::ReadingVersion { version }, LockEvent::LockRead(read)) => {
                LockFlow::Finished { reply: change_reply(version, read) }
            },
            (LockFlow::ReadingState { .. }, LockEvent::LockRead(read)) => match read {
                Ok(state) => granted(LockReply::State(state)),
                Err(error) => refused(crate::error::reported(error)),
            },
            (LockFlow::LockingForChange { job }, LockEvent::BucketLocked(locked)) => match locked {
                Ok(_) => LockFlow::ReadingForChange { job },
                Err(error) => refused(error),
            },
            (LockFlow::ReadingForChange { job }, LockEvent::LockRead(read)) => match read {
                Ok(current) => LockFlow::Timing { job, requested: job.change.applied(current) },
                Err(error) => refused(crate::error::reported(error)),
            },
            (LockFlow::Timing { job, requested }, LockEvent::ClockRead(now)) => {
                LockFlow::WritingLock {
                    job,
                    requested,
                    release: release_of(
                        clock_tolerance_seconds,
                        job.context.bypass_governance,
                        now,
                    ),
                }
            },
            (LockFlow::WritingLock { job, .. }, LockEvent::LockWritten(written)) => after_write(
                job,
                written,
            ),
            (LockFlow::RecordingBypass { reply, .. }, LockEvent::BypassRecorded) => {
                LockFlow::Finished { reply }
            },
            (LockFlow::ReadingClock, LockEvent::ClockRead(now)) => LockFlow::ObservingClock {
                release: release_of(clock_tolerance_seconds, false, now),
            },
            (LockFlow::ObservingClock { .. }, LockEvent::ClockObserved(observed)) => {
                match observed {
                    Ok(_) => granted(LockReply::Observed),
                    Err(error) => refused(crate::error::reported(error)),
                }
            },
            _ => self,
        }
    }
}

fn key_again(key: &ObjectKey) -> (again: ObjectKey)
    ensures
        again == *key,
{
    ObjectKey(key.0.clone())
}

impl LockFlow {
    /// Returns the next thing the request needs done.
    pub fn action(&self) -> (action: LockAction)
        ensures
            action == self.wants(),
    {
        match self {
            LockFlow::Validating { configuration, .. } => LockAction::Validate(*configuration),
            LockFlow::Admitting { .. } => LockAction::Admit,
            LockFlow::FindingBucket { bucket_name, .. } => LockAction::FindBucket(
                bucket_name.clone(),
            ),
            LockFlow::LockingForConfiguration { bucket, .. } => LockAction::LockBucket {
                bucket: *bucket,
                exclusive: true,
            },
            LockFlow::WritingConfiguration { bucket, configuration } => {
                LockAction::WriteConfiguration(*bucket, *configuration)
            },
            LockFlow::FindingVersion { bucket, key, .. } => LockAction::FindVersion(
                *bucket,
                key_again(key),
            ),
            LockFlow::ReadingVersion { version } => LockAction::ReadLock(*version),
            LockFlow::ReadingState { version } => LockAction::ReadLock(*version),
            LockFlow::LockingForChange { job } => LockAction::LockBucket {
                bucket: job.bucket,
                exclusive: false,
            },
            LockFlow::ReadingForChange { job } => LockAction::ReadLock(job.version),
            LockFlow::Timing { .. } => LockAction::ReadClock,
            LockFlow::WritingLock { job, requested, release } => LockAction::WriteLock {
                bucket: job.bucket,
                key: key_again(&job.key),
                version: job.version,
                requested: *requested,
                release: *release,
            },
            LockFlow::RecordingBypass { note, .. } => LockAction::RecordBypass(
                BypassNote {
                    principal: note.principal.clone(),
                    operation: note.operation,
                    bucket: note.bucket.clone(),
                    key: key_again(&note.key),
                    version: note.version,
                    result: note.result,
                },
            ),
            LockFlow::ReadingClock => LockAction::ReadClock,
            LockFlow::ObservingClock { release } => LockAction::ObserveClock(*release),
            LockFlow::Finished { .. } => LockAction::Done,
        }
    }

    /// Returns the answer, once there is one.
    pub fn into_reply(self) -> (reply: Option<Result<LockReply, ServiceError>>)
        ensures
            reply == match self {
                LockFlow::Finished { reply } => Some(reply),
                _ => None,
            },
    {
        match self {
            LockFlow::Finished { reply } => Some(reply),
            _ => None,
        }
    }
}

fn refuse(error: ServiceError) -> (flow: LockFlow)
    ensures
        flow == refused(error),
{
    LockFlow::Finished { reply: Err(error) }
}

fn grant(reply: LockReply) -> (flow: LockFlow)
    ensures
        flow == granted(reply),
{
    LockFlow::Finished { reply: Ok(reply) }
}

fn reply_to_change(version: VersionId, written: Result<ObjectLockState, MetadataError>) -> (reply:
    Result<LockReply, ServiceError>)
    ensures
        reply == change_reply(version, written),
{
    match written {
        Ok(state) => Ok(LockReply::Version(VersionLock { version_id: version, state })),
        Err(error) => Err(map_metadata(error)),
    }
}

/// Object Lock service shared by every protocol.
#[derive(Debug, Clone, Copy, PartialEq, Eq)]
pub struct ObjectLockService {
    /// Deployment-wide settings.
    pub policy: LockPolicy,
}

impl ObjectLockService {
    /// Starts a request for a bucket's Object Lock configuration.
    ///
    /// A bucket without Object Lock is reported as a missing configuration
    /// rather than an empty one, because "never enabled" and "enabled with no
    /// default rule" are different answers and clients branch on them.
    pub fn bucket_configuration(&self, bucket_name: String) -> (flow: LockFlow)
        ensures
            flow == (LockFlow::Admitting { bucket_name, request: LockRequest::Configuration }),
    {
        LockFlow::Admitting { bucket_name, request: LockRequest::Configuration }
    }

    /// Starts a request that replaces a bucket's default retention.
    ///
    /// Object Lock itself cannot be turned on here; that only happens when the
    /// bucket is created. The configuration is validated before anything else.
    pub fn set_bucket_configuration(
        &self,
        bucket_name: String,
        configuration: ObjectLockConfiguration,
    ) -> (flow: LockFlow)
        ensures
            flow == (LockFlow::Validating { bucket_name, configuration }),
    {
        LockFlow::Validating { bucket_name, configuration }
    }

    /// Starts a request for the Object Lock state of one version, current by
    /// default.
    pub fn get(
        &self,
        bucket_name: String,
        key: ObjectKey,
        version: Option<VersionId>,
    ) -> (flow: LockFlow)
        ensures
            flow == (LockFlow::Admitting {
                bucket_name,
                request: LockRequest::Version { key, version, task: VersionTask::Report },
            }),
    {
        LockFlow::Admitting {
            bucket_name,
            request: LockRequest::Version { key, version, task: VersionTask::Report },
        }
    }

    /// Starts a request for the Object Lock state of a version already resolved
    /// elsewhere. It is neither counted nor held to the operation limit.
    pub fn state_of(&self, version: VersionId) -> (flow: LockFlow)
        ensures
            flow == (LockFlow::ReadingState { version }),
    {
        LockFlow::ReadingState { version }
    }

    /// Starts a request that replaces the retention of one version.
    ///
    /// Extending is always allowed. Shortening or removing is refused outright
    /// in compliance mode, and in governance mode requires an authorized
    /// bypass, which is recorded whether it succeeds or not.
    pub fn put_retention(
        &self,
        bucket_name: String,
        key: ObjectKey,
        version: Option<VersionId>,
        retention: Option<Retention>,
        context: LockContext,
    ) -> (flow: LockFlow)
        ensures
            flow == change_requested(
                bucket_name,
                key,
                version,
                LockChange::Retention(retention),
                context,
            ),
    {
        change(bucket_name, key, version, LockChange::Retention(retention), context)
    }

    /// Starts a request that places or removes the legal hold on one version.
    ///
    /// A hold is independent of retention: it blocks deletion on its own, in
    /// either mode, and no bypass applies to it. Removing one is a release, so
    /// it is judged against the observed-time high-water mark.
    pub fn put_legal_hold(
        &self,
        bucket_name: String,
        key: ObjectKey,
        version: Option<VersionId>,
        legal_hold: bool,
        context: LockContext,
    ) -> (flow: LockFlow)
        ensures
            flow == change_requested(
                bucket_name,
                key,
                version,
                LockChange::LegalHold(legal_hold),
                context,
            ),
    {
        change(bucket_name, key, version, LockChange::LegalHold(legal_hold), context)
    }

    /// Starts a request that advances the observed-time high-water mark
    /// retention is judged against.
    ///
    /// Made on a timer as well as by lock operations, so that a deployment that
    /// does nothing lock-related for a month still notices a clock that went
    /// backwards while it was idle.
    pub fn observe_clock(&self) -> (flow: LockFlow)
        ensures
            flow == LockFlow::ReadingClock,
    {
        LockFlow::ReadingClock
    }

    /// Resolves the Object Lock state a version written at `now` is born with.
    ///
    /// An explicit request wins over the bucket default, and a bucket without
    /// Object Lock refuses an explicit request rather than dropping it.
    pub fn initial_state(
        bucket: &Bucket,
        requested: Option<ObjectLockState>,
        now: Timestamp,
    ) -> (born: Result<Option<ObjectLockState>, ServiceError>)
        ensures
            born_with(*bucket, requested, now, born),
    {
        match (bucket.object_lock, requested) {
            (None, Some(state)) => if state.is_unlocked() {
                Ok(None)
            } else {
                Err(ServiceError::ObjectLockNotEnabled)
            },
            (None, None) => Ok(None),
            (Some(_), Some(state)) => Ok(Some(state)),
            (Some(configuration), None) => {
                match configuration.initial_state_at(now) {
                    Ok(state) => Ok(Some(state)),
                    Err(RetentionOutOfRange) => Err(ServiceError::RetentionOutOfRange),
                }
            },
        }
    }

    /// Moves a request on by what came of its last action.
    pub fn step(&self, flow: LockFlow, event: LockEvent) -> (next: LockFlow)
        ensures
            next == flow.after(event, self.policy.clock_tolerance_seconds),
    {
        match (flow, event) {
            (
                LockFlow::Validating { bucket_name, configuration },
                LockEvent::Validated(judged),
            ) => match judged {
                Ok(_) => LockFlow::Admitting {
                    bucket_name,
                    request: LockRequest::SetConfiguration(configuration),
                },
                Err(reason) => refuse(ServiceError::InvalidConfiguration(reason)),
            },
            (LockFlow::Admitting { bucket_name, request }, LockEvent::Admitted(permitted)) => {
                if permitted {
                    LockFlow::FindingBucket { bucket_name, request }
                } else {
                    refuse(ServiceError::Unavailable)
                }
            },
            (LockFlow::FindingBucket { bucket_name, request }, LockEvent::BucketFound(found)) => {
                match resolve_bucket(found) {
                    Ok(bucket) => proceed_with_bucket(bucket_name, bucket, request),
                    Err(error) => refuse(error),
                }
            },
            (
                LockFlow::LockingForConfiguration { bucket, configuration },
                LockEvent::BucketLocked(locked),
            ) => match locked {
                Ok(_) => LockFlow::WritingConfiguration { bucket, configuration },
                Err(error) => refuse(error),
            },
            (
                LockFlow::WritingConfiguration { .. },
                LockEvent::ConfigurationWritten(written),
            ) => match written {
                Ok(bucket) => grant(LockReply::Bucket(bucket)),
                Err(error) => refuse(map_metadata(error)),
            },
            (
                LockFlow::FindingVersion { bucket_name, bucket, key, task },
                LockEvent::VersionFound(found),
            ) => match resolve_version(found) {
                Ok(version) => proceed_with_version(bucket_name, bucket, key, version, task),
                Err(error) => refuse(error),
            },
            (LockFlow::ReadingVersion { version }, LockEvent::LockRead(read)) => {
                LockFlow::Finished { reply: reply_to_change(version, read) }
            },
            (LockFlow::ReadingState { .. }, LockEvent::LockRead(read)) => match read {
                Ok(state) => grant(LockReply::State(state)),
                Err(error) => refuse(map_metadata(error)),
            },
            (LockFlow::LockingForChange { job }, LockEvent::BucketLocked(locked)) => match locked {
                Ok(_) => LockFlow::ReadingForChange { job },
                Err(error) => refuse(error),
            },
            (LockFlow::ReadingForChange { job }, LockEvent::LockRead(read)) => match read {
                Ok(current) => {
                    let requested: ObjectLockState = job.change.apply(current);
                    LockFlow::Timing { job, requested }
                },
                Err(error) => refuse(map_metadata(error)),
            },
            (LockFlow::Timing { job, requested }, LockEvent::ClockRead(now)) => {
                let release: LockRelease = self.policy.release(&job.context, now);
                LockFlow::WritingLock { job, requested, release }
            },
            (LockFlow::WritingLock { job, .. }, LockEvent::LockWritten(written)) => {
                finish_change(job, written)
            },
            (LockFlow::RecordingBypass { reply, .. }, LockEvent::BypassRecorded) => {
                LockFlow::Finished { reply }
            },
            (LockFlow::ReadingClock, LockEvent::ClockRead(now)) => {
                let context: LockContext = LockContext::system("clock");
                LockFlow::ObservingClock { release: self.policy.release(&context, now) }
            },
            (LockFlow::ObservingClock { .. }, LockEvent::ClockObserved(observed)) => {
                match observed {
                    Ok(_) => grant(LockReply::Observed),
                    Err(error) => refuse(map_metadata(error)),
                }
            },
            (unmoved, _) => unmoved,
        }
    }
}

/// A change of one version's lock, requested.
pub open spec fn change_requested(
    bucket_name: String,
    key: ObjectKey,
    version: Option<VersionId>,
    change: LockChange,
    context: LockContext,
) -> LockFlow {
    LockFlow::Admitting {
        bucket_name,
        request: LockRequest::Version { key, version, task: VersionTask::Change { change, context } },
    }
}

fn change(
    bucket_name: String,
    key: ObjectKey,
    version: Option<VersionId>,
    requested: LockChange,
    context: LockContext,
) -> (flow: LockFlow)
    ensures
        flow == change_requested(bucket_name, key, version, requested, context),
{
    LockFlow::Admitting {
        bucket_name,
        request: LockRequest::Version { key, version, task: VersionTask::Change { change: requested, context } },
    }
}

fn resolve_bucket(found: Result<Option<Bucket>, MetadataError>) -> (bucket: Result<
    Bucket,
    ServiceError,
>)
    ensures
        bucket == match found {
            Ok(Some(bucket)) => Ok(bucket),
            Ok(None) => Err(ServiceError::BucketNotFound),
            Err(error) => Err(ServiceError::Metadata(error)),
        },
{
    match found {
        Ok(Some(bucket)) => Ok(bucket),
        Ok(None) => Err(ServiceError::BucketNotFound),
        Err(error) => Err(ServiceError::Metadata(error)),
    }
}

fn resolve_version(found: Result<Option<VersionId>, MetadataError>) -> (version: Result<
    VersionId,
    ServiceError,
>)
    ensures
        version == match found {
            Ok(Some(version)) => Ok(version),
            Ok(None) => Err(ServiceError::ObjectNotFound),
            Err(error) => Err(crate::error::reported(error)),
        },
{
    match found {
        Ok(Some(version)) => Ok(version),
        Ok(None) => Err(ServiceError::ObjectNotFound),
        Err(error) => Err(map_metadata(error)),
    }
}

fn proceed_with_version(
    bucket_name: String,
    bucket: BucketId,
    key: ObjectKey,
    version: VersionId,
    task: VersionTask,
) -> (flow: LockFlow)
    ensures
        flow == with_version(bucket_name, bucket, key, version, task),
{
    match task {
        VersionTask::Report => LockFlow::ReadingVersion { version },
        VersionTask::Change { change, context } => LockFlow::LockingForChange {
            job: ChangeJob { bucket_name, bucket, key, version, change, context },
        },
    }
}

fn proceed_with_bucket(bucket_name: String, bucket: Bucket, request: LockRequest) -> (flow:
    LockFlow)
    ensures
        flow == with_bucket(bucket_name, bucket, request),
{
    match request {
        LockRequest::Configuration => match bucket.object_lock {
            Some(configuration) => grant(LockReply::Configuration(configuration)),
            None => refuse(ServiceError::ObjectLockConfigurationNotFound),
        },
        LockRequest::SetConfiguration(configuration) => LockFlow::LockingForConfiguration {
            bucket: bucket.id,
            configuration,
        },
        LockRequest::Version { key, version, task } => {
            if bucket.object_lock.is_none() {
                return refuse(ServiceError::ObjectLockNotEnabled);
            }
            match version {
                Some(version) => proceed_with_version(bucket_name, bucket.id, key, version, task),
                None => LockFlow::FindingVersion { bucket_name, bucket: bucket.id, key, task },
            }
        },
    }
}

fn finish_change(job: ChangeJob, written: Result<ObjectLockState, MetadataError>) -> (flow:
    LockFlow)
    ensures
        flow == after_write(job, written),
{
    let note: Option<BypassNote> = note_bypass(
        &job.context,
        job.change.operation(),
        &job.bucket_name,
        &job.key,
        job.version,
        written.is_ok(),
    );
    let reply: Result<LockReply, ServiceError> = reply_to_change(job.version, written);
    match note {
        Some(note) => LockFlow::RecordingBypass { note, reply },
        None => LockFlow::Finished { reply },
    }
}

/// Whether this is what a version written at `now` is born with: what was
/// requested, where Object Lock is enabled, else the bucket's default. A bucket
/// without Object Lock takes no lock, and refuses a request that holds anything.
pub open spec fn born_with(
    bucket: Bucket,
    requested: Option<ObjectLockState>,
    now: Timestamp,
    born: Result<Option<ObjectLockState>, ServiceError>,
) -> bool {
    match bucket.object_lock {
        None => if requested is Some && requested->0 != crate::retention::unlocked() {
            born == Err::<Option<ObjectLockState>, _>(ServiceError::ObjectLockNotEnabled)
        } else {
            born == Ok::<_, ServiceError>(None::<ObjectLockState>)
        },
        Some(configuration) => match requested {
            Some(state) => born == Ok::<_, ServiceError>(Some(state)),
            None => match born {
                Ok(Some(state)) => configuration.gives(now, Ok(state)),
                Err(ServiceError::RetentionOutOfRange) => configuration.gives(
                    now,
                    Err(RetentionOutOfRange),
                ),
                _ => false,
            },
        },
    }
}

} // verus!
