//! What holds of every Object Lock request, whatever its actions come to.

use vstd::prelude::*;

use crate::audit::{AuditResult, BypassNote};
use crate::error::{reported, MetadataError, ServiceError};
use crate::lock::{
    born_with, change_requested, noted, release_of, ChangeJob, LockAction,
    LockChange, LockContext, LockEvent, LockFlow, LockReply, LockRequest, VersionLock, VersionTask,
};
use crate::retention::{
    DefaultRetention, DeletionBlock, ObjectLockConfiguration, ObjectLockState, RetentionMode,
    RetentionPeriod,
};
use crate::time::Timestamp;
use crate::tx::{remaining_block, LockRelease};
use crate::types::{Bucket, ObjectKey, VersionId};

verus! {

/// Where a request stands after a series of events.
pub open spec fn run(flow: LockFlow, events: Seq<LockEvent>, tolerance: u32) -> LockFlow
    decreases events.len(),
{
    if events.len() == 0 {
        flow
    } else {
        run(flow, events.drop_last(), tolerance).after(events.last(), tolerance)
    }
}

/// Whether an event says what came of an action.
pub open spec fn answers(action: LockAction, event: LockEvent) -> bool {
    match action {
        LockAction::Validate(_) => event is Validated,
        LockAction::Admit => event is Admitted,
        LockAction::FindBucket(_) => event is BucketFound,
        LockAction::FindVersion(_, _) => event is VersionFound,
        LockAction::LockBucket { .. } => event is BucketLocked,
        LockAction::WriteConfiguration(_, _) => event is ConfigurationWritten,
        LockAction::ReadLock(_) => event is LockRead,
        LockAction::ReadClock => event is ClockRead,
        LockAction::WriteLock { .. } => event is LockWritten,
        LockAction::RecordBypass(_) => event is BypassRecorded,
        LockAction::ObserveClock(_) => event is ClockObserved,
        LockAction::Done => false,
    }
}

/// Whether every event of a series answers what the request then waits for.
pub open spec fn all_answer(flow: LockFlow, events: Seq<LockEvent>, tolerance: u32) -> bool {
    forall|i: int|
        0 <= i < events.len() ==> answers(
            #[trigger] run(flow, events.take(i), tolerance).wants(),
            events[i],
        )
}

/// How many more answers a request takes at most.
pub open spec fn remaining_answers(flow: LockFlow) -> nat {
    match flow {
        LockFlow::Validating { .. } => 10,
        LockFlow::Admitting { .. } => 9,
        LockFlow::FindingBucket { .. } => 8,
        LockFlow::FindingVersion { .. } => 7,
        LockFlow::LockingForChange { .. } => 6,
        LockFlow::ReadingForChange { .. } => 5,
        LockFlow::Timing { .. } => 4,
        LockFlow::WritingLock { .. } => 3,
        LockFlow::RecordingBypass { .. } => 2,
        LockFlow::LockingForConfiguration { .. } => 2,
        LockFlow::ReadingClock => 2,
        LockFlow::WritingConfiguration { .. } => 1,
        LockFlow::ReadingVersion { .. } => 1,
        LockFlow::ReadingState { .. } => 1,
        LockFlow::ObservingClock { .. } => 1,
        LockFlow::Finished { .. } => 0,
    }
}

/// An event moves a request on exactly when it answers what the request waits
/// for; any other leaves the request as it was.
pub proof fn law_only_answers_move_a_request(flow: LockFlow, event: LockEvent, tolerance: u32)
    ensures
        answers(flow.wants(), event) ==> remaining_answers(flow.after(event, tolerance))
            < remaining_answers(flow),
        !answers(flow.wants(), event) ==> flow.after(event, tolerance) == flow,
{
}

/// Every request is answered: a series of answers is never longer than ten, and
/// where no action is left the request holds its reply.
pub proof fn law_every_request_is_answered(
    flow: LockFlow,
    events: Seq<LockEvent>,
    tolerance: u32,
)
    requires
        all_answer(flow, events, tolerance),
    ensures
        events.len() + remaining_answers(run(flow, events, tolerance)) <= remaining_answers(flow)
            <= 10,
        run(flow, events, tolerance).wants() is Done <==> run(flow, events, tolerance) is Finished,
    decreases events.len(),
{
    if events.len() > 0 {
        let before = events.drop_last();
        assert(before =~= events.take(events.len() - 1));
        assert forall|i: int| 0 <= i < before.len() implies answers(
            #[trigger] run(flow, before.take(i), tolerance).wants(),
            before[i],
        ) by {
            assert(before.take(i) =~= events.take(i));
        }
        law_every_request_is_answered(flow, before, tolerance);
        law_only_answers_move_a_request(run(flow, before, tolerance), events.last(), tolerance);
        assert(answers(run(flow, events.take(events.len() - 1), tolerance).wants(), events.last()));
    }
}

/// Every bypass is recorded before the request is answered, whether or not the
/// write it was used for succeeded: the record names who exercised it, what was
/// done to which version, and how the write ended. The answer is the write's
/// own.
pub proof fn law_every_bypass_is_recorded(
    job: ChangeJob,
    requested: ObjectLockState,
    release: LockRelease,
    written: Result<ObjectLockState, MetadataError>,
    tolerance: u32,
)
    requires
        job.context.bypass_governance,
    ensures
        ({
            let writing = LockFlow::WritingLock { job, requested, release };
            let recording = writing.after(LockEvent::LockWritten(written), tolerance);
            &&& recording.wants() == LockAction::RecordBypass(
                BypassNote {
                    principal: job.context.principal,
                    operation: match job.change {
                        LockChange::Retention(_) => "object-lock.put-retention",
                        LockChange::LegalHold(_) => "object-lock.put-legal-hold",
                    },
                    bucket: job.bucket_name,
                    key: job.key,
                    version: job.version,
                    result: if written is Ok {
                        AuditResult::Success
                    } else {
                        AuditResult::Denied
                    },
                },
            )
            &&& recording.after(LockEvent::BypassRecorded, tolerance) == (LockFlow::Finished {
                reply: match written {
                    Ok(state) => Ok(
                        LockReply::Version(VersionLock { version_id: job.version, state }),
                    ),
                    Err(error) => Err(reported(error)),
                },
            })
        }),
{
}

/// Whether nothing about a request carries a bypass.
pub open spec fn bypass_free(flow: LockFlow) -> bool {
    match flow {
        LockFlow::Admitting { request, .. } => bypass_free_request(request),
        LockFlow::FindingBucket { request, .. } => bypass_free_request(request),
        LockFlow::FindingVersion { task, .. } => bypass_free_task(task),
        LockFlow::LockingForChange { job } => !job.context.bypass_governance,
        LockFlow::ReadingForChange { job } => !job.context.bypass_governance,
        LockFlow::Timing { job, .. } => !job.context.bypass_governance,
        LockFlow::WritingLock { job, release, .. } => !job.context.bypass_governance
            && !release.bypass_governance,
        LockFlow::RecordingBypass { .. } => false,
        LockFlow::ObservingClock { release } => !release.bypass_governance,
        _ => true,
    }
}

/// Whether a task was requested without a bypass.
pub open spec fn bypass_free_task(task: VersionTask) -> bool {
    task matches VersionTask::Change { context, .. } ==> !context.bypass_governance
}

/// Whether a request was made without a bypass.
pub open spec fn bypass_free_request(request: LockRequest) -> bool {
    request matches LockRequest::Version { task, .. } ==> bypass_free_task(task)
}

/// A request that presents no bypass never leads to a bypass record, and never
/// hands the catalog a bypass, whatever its actions come to.
pub proof fn law_no_bypass_without_one_presented(
    flow: LockFlow,
    events: Seq<LockEvent>,
    tolerance: u32,
)
    requires
        bypass_free(flow),
    ensures
        bypass_free(run(flow, events, tolerance)),
        !(run(flow, events, tolerance).wants() is RecordBypass),
        run(flow, events, tolerance).wants() matches LockAction::WriteLock { release, .. }
            ==> !release.bypass_governance,
        run(flow, events, tolerance).wants() matches LockAction::ObserveClock(release)
            ==> !release.bypass_governance,
    decreases events.len(),
{
    if events.len() > 0 {
        law_no_bypass_without_one_presented(flow, events.drop_last(), tolerance);
    }
}

/// A request about a version of a bucket without Object Lock is refused before
/// any lock is read or written.
pub proof fn law_bucket_without_object_lock_refuses(
    bucket_name: String,
    bucket: Bucket,
    key: ObjectKey,
    version: Option<VersionId>,
    task: VersionTask,
    tolerance: u32,
)
    requires
        bucket.object_lock is None,
    ensures
        (LockFlow::FindingBucket {
            bucket_name,
            request: LockRequest::Version { key, version, task },
        }).after(LockEvent::BucketFound(Ok(Some(bucket))), tolerance) == (LockFlow::Finished {
            reply: Err(ServiceError::ObjectLockNotEnabled),
        }),
{
}

/// "Never enabled" and "enabled with no default rule" are different answers.
pub proof fn law_never_enabled_differs_from_no_default(
    bucket_name: String,
    never: Bucket,
    without_rule: Bucket,
    tolerance: u32,
)
    requires
        never.object_lock is None,
        without_rule.object_lock == Some(ObjectLockConfiguration { default_retention: None }),
    ensures
        ({
            let asked = LockFlow::FindingBucket {
                bucket_name,
                request: LockRequest::Configuration,
            };
            &&& asked.after(LockEvent::BucketFound(Ok(Some(never))), tolerance) == (LockFlow::Finished {
                reply: Err(ServiceError::ObjectLockConfigurationNotFound),
            })
            &&& asked.after(LockEvent::BucketFound(Ok(Some(without_rule))), tolerance) == (LockFlow::Finished {
                reply: Ok(
                    LockReply::Configuration(ObjectLockConfiguration { default_retention: None }),
                ),
            })
        }),
{
}

/// A change of a version's lock takes effect as asked, whatever is in force: what
/// is written has exactly the requested retention and the legal hold in force, or
/// exactly the requested hold and the retention in force. It is judged on the
/// clock that was read and the bypass that was presented. Where the request names
/// no version, it is the current one that is changed.
pub proof fn law_change_is_written_over_the_lock_in_force(
    bucket_name: String,
    bucket: Bucket,
    key: ObjectKey,
    named: Option<VersionId>,
    current_version: VersionId,
    change: LockChange,
    context: LockContext,
    current: ObjectLockState,
    now: Timestamp,
    tolerance: u32,
)
    requires
        bucket.object_lock is Some,
    ensures
        ({
            let asked = LockFlow::Admitting {
                bucket_name,
                request: LockRequest::Version {
                    key,
                    version: named,
                    task: VersionTask::Change { change, context },
                },
            };
            let found = asked.after(LockEvent::Admitted(true), tolerance).after(
                LockEvent::BucketFound(Ok(Some(bucket))),
                tolerance,
            );
            let resolved = match named {
                Some(_) => found,
                None => found.after(LockEvent::VersionFound(Ok(Some(current_version))), tolerance),
            };
            &&& change_requested(bucket_name, key, named, change, context) == asked
            &&& named is None ==> found.wants() == LockAction::FindVersion(bucket.id, key)
            &&& resolved.after(LockEvent::BucketLocked(Ok(())), tolerance).after(
                LockEvent::LockRead(Ok(current)),
                tolerance,
            ).after(LockEvent::ClockRead(now), tolerance).wants() == (LockAction::WriteLock {
                bucket: bucket.id,
                key,
                version: match named {
                    Some(version) => version,
                    None => current_version,
                },
                requested: ObjectLockState {
                    retention: match change {
                        LockChange::Retention(retention) => retention,
                        LockChange::LegalHold(_) => current.retention,
                    },
                    legal_hold: match change {
                        LockChange::Retention(_) => current.legal_hold,
                        LockChange::LegalHold(legal_hold) => legal_hold,
                    },
                },
                release: LockRelease {
                    observed_at: now,
                    clock_tolerance_seconds: tolerance,
                    bypass_governance: context.bypass_governance,
                },
            })
        }),
{
}

/// A hold is independent of retention: changing one leaves the other as it was,
/// and the two may be changed in either order.
pub proof fn law_hold_and_retention_are_independent(
    current: ObjectLockState,
    retention: Option<crate::retention::Retention>,
    legal_hold: bool,
)
    ensures
        LockChange::Retention(retention).applied(current).retention == retention,
        LockChange::Retention(retention).applied(current).legal_hold == current.legal_hold,
        LockChange::LegalHold(legal_hold).applied(current).legal_hold == legal_hold,
        LockChange::LegalHold(legal_hold).applied(current).retention == current.retention,
        LockChange::Retention(retention).applied(LockChange::LegalHold(legal_hold).applied(current))
            == LockChange::LegalHold(legal_hold).applied(
            LockChange::Retention(retention).applied(current),
        ),
{
}

/// Whatever a request was doing, a clock that went backwards is reported as
/// such, and a version that is still held as locked.
pub proof fn law_refusals_of_the_catalog_are_reported(
    job: ChangeJob,
    requested: ObjectLockState,
    release: LockRelease,
    block: DeletionBlock,
    tolerance: u32,
)
    requires
        !job.context.bypass_governance,
    ensures
        ({
            let writing = LockFlow::WritingLock { job, requested, release };
            let observing = LockFlow::ObservingClock { release };
            let behind = MetadataError::ClockWentBackwards;
            let held = MetadataError::VersionLocked(block);
            &&& writing.after(LockEvent::LockWritten(Err(behind)), tolerance) == (LockFlow::Finished {
                reply: Err(ServiceError::RetentionClockUnavailable),
            })
            &&& observing.after(LockEvent::ClockObserved(Err(behind)), tolerance) == (LockFlow::Finished {
                reply: Err(ServiceError::RetentionClockUnavailable),
            })
            &&& writing.after(LockEvent::LockWritten(Err(held)), tolerance) == (LockFlow::Finished {
                reply: Err(ServiceError::ObjectLocked(block)),
            })
        }),
{
    assert(reported(MetadataError::ClockWentBackwards) == ServiceError::RetentionClockUnavailable);
}

/// An explicit request wins over the bucket default, and a bucket without
/// Object Lock refuses one that holds anything rather than dropping it.
pub proof fn law_explicit_request_wins(
    bucket: Bucket,
    requested: ObjectLockState,
    now: Timestamp,
    born: Result<Option<ObjectLockState>, ServiceError>,
)
    requires
        born_with(bucket, Some(requested), now, born),
    ensures
        bucket.object_lock is Some ==> born == Ok::<_, ServiceError>(Some(requested)),
        bucket.object_lock is None && requested != crate::retention::unlocked() ==> born == Err::<
            Option<ObjectLockState>,
            _,
        >(ServiceError::ObjectLockNotEnabled),
{
}

/// A version born under a bucket's default rule may not be removed until the
/// rule's period is over, and under a compliance rule a bypass changes nothing
/// about that.
pub proof fn law_default_holds_for_its_period(
    bucket: Bucket,
    now: Timestamp,
    state: ObjectLockState,
    release: LockRelease,
)
    requires
        born_with(bucket, None, now, Ok(Some(state))),
        bucket.object_lock is Some,
        bucket.object_lock->0.default_retention is Some,
        ({
            let RetentionPeriod::Days(days) = bucket.object_lock->0.default_retention->0.period;
            release.observed_at.seconds() < now.seconds() + days * 86_400
        }),
    ensures
        state.block_at(release.observed_at) is Some,
        bucket.object_lock->0.default_retention->0.mode == RetentionMode::Compliance
            || !release.bypass_governance ==> remaining_block(state, release) is Some,
{
}

/// Without a bypass a change is answered as soon as its write came back, with the
/// lock that was written or with what the catalog refused it for.
pub proof fn law_change_without_a_bypass_is_answered_at_once(
    job: ChangeJob,
    requested: ObjectLockState,
    release: LockRelease,
    written: Result<ObjectLockState, MetadataError>,
    tolerance: u32,
)
    requires
        !job.context.bypass_governance,
    ensures
        (LockFlow::WritingLock { job, requested, release }).after(
            LockEvent::LockWritten(written),
            tolerance,
        ) == (LockFlow::Finished {
            reply: match written {
                Ok(state) => Ok(LockReply::Version(VersionLock { version_id: job.version, state })),
                Err(error) => Err(reported(error)),
            },
        }),
{
}

/// A bypass is noted exactly when one was presented, with everything about it.
pub proof fn law_note_is_of_the_bypass_presented(
    context: LockContext,
    operation: &'static str,
    bucket: String,
    key: ObjectKey,
    version: VersionId,
    succeeded: bool,
)
    ensures
        noted(context, operation, bucket, key, version, succeeded) is Some
            <==> context.bypass_governance,
        noted(context, operation, bucket, key, version, succeeded) matches Some(note) ==> {
            &&& note.principal == context.principal
            &&& note.operation == operation
            &&& note.bucket == bucket
            &&& note.key == key
            &&& note.version == version
            &&& note.result is Success <==> succeeded
        },
{
}

/// What an operation is judged on is the clock that was read, the deployment's
/// tolerance and the bypass presented.
pub proof fn law_release_is_what_was_observed(tolerance: u32, bypass: bool, now: Timestamp)
    ensures
        release_of(tolerance, bypass, now).observed_at == now,
        release_of(tolerance, bypass, now).clock_tolerance_seconds == tolerance,
        release_of(tolerance, bypass, now).bypass_governance == bypass,
{
}

/// A request to report the lock of a version asks, of a bucket with Object Lock,
/// for the lock of that very version: the one it names, without looking up which
/// is current, or else the one found to be current. The reply holds that version
/// and the lock that was read.
pub proof fn law_report_is_of_the_version_asked_for(
    bucket_name: String,
    bucket: Bucket,
    key: ObjectKey,
    named: Option<VersionId>,
    current_version: VersionId,
    read: Result<ObjectLockState, MetadataError>,
    tolerance: u32,
)
    requires
        bucket.object_lock is Some,
    ensures
        ({
            let asked = LockFlow::Admitting {
                bucket_name,
                request: LockRequest::Version { key, version: named, task: VersionTask::Report },
            };
            let found = asked.after(LockEvent::Admitted(true), tolerance).after(
                LockEvent::BucketFound(Ok(Some(bucket))),
                tolerance,
            );
            let resolved = match named {
                Some(_) => found,
                None => found.after(LockEvent::VersionFound(Ok(Some(current_version))), tolerance),
            };
            let version = match named {
                Some(version) => version,
                None => current_version,
            };
            &&& named is None ==> found.wants() == LockAction::FindVersion(bucket.id, key)
            &&& resolved.wants() == LockAction::ReadLock(version)
            &&& resolved.after(LockEvent::LockRead(read), tolerance) == (LockFlow::Finished {
                reply: match read {
                    Ok(state) => Ok(LockReply::Version(VersionLock { version_id: version, state })),
                    Err(error) => Err(reported(error)),
                },
            })
        }),
{
}

/// The lock of a version that is already known is read at once, and is the reply.
pub proof fn law_known_version_is_read_at_once(
    version: VersionId,
    read: Result<ObjectLockState, MetadataError>,
    tolerance: u32,
)
    ensures
        (LockFlow::ReadingState { version }).wants() == LockAction::ReadLock(version),
        (LockFlow::ReadingState { version }).after(LockEvent::LockRead(read), tolerance) == (
        LockFlow::Finished {
            reply: match read {
                Ok(state) => Ok(LockReply::State(state)),
                Err(error) => Err(reported(error)),
            },
        }),
{
}

/// Every counted request is first admitted, or refused as unavailable, and then
/// has its bucket looked up by the name it gave; without a bucket, or with a
/// failing catalog, it ends there.
pub proof fn law_every_request_is_admitted_and_finds_its_bucket(
    bucket_name: String,
    request: LockRequest,
    error: MetadataError,
    tolerance: u32,
)
    ensures
        ({
            let asked = LockFlow::Admitting { bucket_name, request };
            let admitted = asked.after(LockEvent::Admitted(true), tolerance);
            &&& asked.wants() is Admit
            &&& asked.after(LockEvent::Admitted(false), tolerance) == (LockFlow::Finished {
                reply: Err(ServiceError::Unavailable),
            })
            &&& admitted.wants() == LockAction::FindBucket(bucket_name)
            &&& admitted.after(LockEvent::BucketFound(Ok(None)), tolerance) == (
            LockFlow::Finished { reply: Err(ServiceError::BucketNotFound) })
            &&& admitted.after(LockEvent::BucketFound(Err(error)), tolerance) == (
            LockFlow::Finished { reply: Err(ServiceError::Metadata(error)) })
        }),
{
}

/// A request that names no version fails where the key has none, or where looking
/// it up fails.
pub proof fn law_missing_version_is_not_found(
    bucket_name: String,
    bucket: Bucket,
    key: ObjectKey,
    task: VersionTask,
    error: MetadataError,
    tolerance: u32,
)
    requires
        bucket.object_lock is Some,
    ensures
        ({
            let finding = (LockFlow::FindingBucket {
                bucket_name,
                request: LockRequest::Version { key, version: None, task },
            }).after(LockEvent::BucketFound(Ok(Some(bucket))), tolerance);
            &&& finding.wants() == LockAction::FindVersion(bucket.id, key)
            &&& finding.after(LockEvent::VersionFound(Ok(None)), tolerance) == (
            LockFlow::Finished { reply: Err(ServiceError::ObjectNotFound) })
            &&& finding.after(LockEvent::VersionFound(Err(error)), tolerance) == (
            LockFlow::Finished { reply: Err(reported(error)) })
        }),
{
}

/// A bucket's configuration is reported as it is, and one that has none is told
/// apart.
pub proof fn law_configuration_is_reported(bucket_name: String, bucket: Bucket, tolerance: u32)
    ensures
        (LockFlow::Admitting { bucket_name, request: LockRequest::Configuration }).after(
            LockEvent::Admitted(true),
            tolerance,
        ).after(LockEvent::BucketFound(Ok(Some(bucket))), tolerance) == (LockFlow::Finished {
            reply: match bucket.object_lock {
                Some(configuration) => Ok(LockReply::Configuration(configuration)),
                None => Err(ServiceError::ObjectLockConfigurationNotFound),
            },
        }),
{
}

/// A configuration is validated first, as it was given; then the bucket that was
/// found is locked against everything else and gets that configuration, and the
/// reply is the bucket as it was written. Whatever fails ends the request with
/// nothing written after it.
pub proof fn law_configuration_is_written_as_given(
    bucket_name: String,
    configuration: ObjectLockConfiguration,
    bucket: Bucket,
    reason: String,
    refusal: ServiceError,
    written: Result<Bucket, MetadataError>,
    tolerance: u32,
)
    ensures
        ({
            let asked = LockFlow::Validating { bucket_name, configuration };
            let admitting = asked.after(LockEvent::Validated(Ok(())), tolerance);
            let locking = admitting.after(LockEvent::Admitted(true), tolerance).after(
                LockEvent::BucketFound(Ok(Some(bucket))),
                tolerance,
            );
            let writing = locking.after(LockEvent::BucketLocked(Ok(())), tolerance);
            &&& asked.wants() == LockAction::Validate(configuration)
            &&& asked.after(LockEvent::Validated(Err(reason)), tolerance) == (LockFlow::Finished {
                reply: Err(ServiceError::InvalidConfiguration(reason)),
            })
            &&& admitting.wants() is Admit
            &&& locking.wants() == (LockAction::LockBucket { bucket: bucket.id, exclusive: true })
            &&& locking.after(LockEvent::BucketLocked(Err(refusal)), tolerance) == (
            LockFlow::Finished { reply: Err(refusal) })
            &&& writing.wants() == LockAction::WriteConfiguration(bucket.id, configuration)
            &&& writing.after(LockEvent::ConfigurationWritten(written), tolerance) == (
            LockFlow::Finished {
                reply: match written {
                    Ok(bucket) => Ok(LockReply::Bucket(bucket)),
                    Err(error) => Err(reported(error)),
                },
            })
        }),
{
}

/// A change locks its bucket, leaving other changes room, then reads the lock of
/// the version it is about and the clock, in that order; a lock that cannot be
/// had or read ends it with nothing written.
pub proof fn law_change_locks_then_reads(
    job: ChangeJob,
    current: ObjectLockState,
    refusal: ServiceError,
    error: MetadataError,
    tolerance: u32,
)
    ensures
        ({
            let locking = LockFlow::LockingForChange { job };
            let reading = locking.after(LockEvent::BucketLocked(Ok(())), tolerance);
            &&& locking.wants() == (LockAction::LockBucket { bucket: job.bucket, exclusive: false })
            &&& locking.after(LockEvent::BucketLocked(Err(refusal)), tolerance) == (
            LockFlow::Finished { reply: Err(refusal) })
            &&& reading.wants() == LockAction::ReadLock(job.version)
            &&& reading.after(LockEvent::LockRead(Err(error)), tolerance) == (LockFlow::Finished {
                reply: Err(reported(error)),
            })
            &&& reading.after(LockEvent::LockRead(Ok(current)), tolerance).wants() is ReadClock
        }),
{
}

/// Observing the clock reads it, hands on what was read without a bypass, and
/// reports what came of it.
pub proof fn law_clock_is_observed_as_read(
    now: Timestamp,
    observed: Result<(), MetadataError>,
    tolerance: u32,
)
    ensures
        LockFlow::ReadingClock.wants() is ReadClock,
        LockFlow::ReadingClock.after(LockEvent::ClockRead(now), tolerance).wants()
            == LockAction::ObserveClock(
            LockRelease {
                observed_at: now,
                clock_tolerance_seconds: tolerance,
                bypass_governance: false,
            },
        ),
        LockFlow::ReadingClock.after(LockEvent::ClockRead(now), tolerance).after(
            LockEvent::ClockObserved(observed),
            tolerance,
        ) == (LockFlow::Finished {
            reply: match observed {
                Ok(_) => Ok(LockReply::Observed),
                Err(error) => Err(reported(error)),
            },
        }),
{
}

/// A bucket without Object Lock gives a version no lock where none is asked for.
pub proof fn law_no_object_lock_no_lock(
    bucket: Bucket,
    now: Timestamp,
    asked_for_nothing: Result<Option<ObjectLockState>, ServiceError>,
    asked_for_no_hold: Result<Option<ObjectLockState>, ServiceError>,
)
    requires
        bucket.object_lock is None,
        born_with(bucket, None, now, asked_for_nothing),
        born_with(
            bucket,
            Some(ObjectLockState { retention: None, legal_hold: false }),
            now,
            asked_for_no_hold,
        ),
    ensures
        asked_for_nothing == Ok::<_, ServiceError>(None::<ObjectLockState>),
        asked_for_no_hold == Ok::<_, ServiceError>(None::<ObjectLockState>),
{
}

/// A version that asks for nothing in a bucket with Object Lock is born with what
/// the bucket's rule gives it, in numbers.
pub proof fn law_default_is_given_in_numbers(
    bucket: Bucket,
    now: Timestamp,
    born: Result<Option<ObjectLockState>, ServiceError>,
)
    requires
        bucket.object_lock is Some,
        born_with(bucket, None, now, born),
    ensures
        bucket.object_lock->0.default_retention is None ==> born == Ok::<_, ServiceError>(
            Some(ObjectLockState { retention: None, legal_hold: false }),
        ),
        bucket.object_lock->0.default_retention matches Some(
            DefaultRetention { mode, period: RetentionPeriod::Days(days) },
        ) ==> {
            let end = now.seconds() + days * 86_400;
            &&& end > 8_210_266_876_799 ==> born == Err::<Option<ObjectLockState>, _>(
                ServiceError::RetentionOutOfRange,
            )
            &&& end <= 8_210_266_876_799 ==> {
                &&& born is Ok
                &&& born->Ok_0 matches Some(state)
                &&& !state.legal_hold
                &&& state.retention matches Some(retention)
                &&& retention.mode == mode
                &&& retention.retain_until.seconds() == end
                &&& retention.retain_until.nanos() == now.nanos()
            }
        },
{
}

/// The record of a bypass that a change used is about the request that was made:
/// who made it, in which bucket, to which key and version, and how the write
/// ended.
pub proof fn law_bypass_record_is_of_the_request(
    bucket_name: String,
    bucket: Bucket,
    key: ObjectKey,
    named: Option<VersionId>,
    current_version: VersionId,
    change: LockChange,
    context: LockContext,
    current: ObjectLockState,
    now: Timestamp,
    written: Result<ObjectLockState, MetadataError>,
    tolerance: u32,
)
    requires
        bucket.object_lock is Some,
        context.bypass_governance,
    ensures
        ({
            let found = (LockFlow::Admitting {
                bucket_name,
                request: LockRequest::Version {
                    key,
                    version: named,
                    task: VersionTask::Change { change, context },
                },
            }).after(LockEvent::Admitted(true), tolerance).after(
                LockEvent::BucketFound(Ok(Some(bucket))),
                tolerance,
            );
            let resolved = match named {
                Some(_) => found,
                None => found.after(LockEvent::VersionFound(Ok(Some(current_version))), tolerance),
            };
            let recording = resolved.after(LockEvent::BucketLocked(Ok(())), tolerance).after(
                LockEvent::LockRead(Ok(current)),
                tolerance,
            ).after(LockEvent::ClockRead(now), tolerance).after(
                LockEvent::LockWritten(written),
                tolerance,
            );
            recording.wants() == LockAction::RecordBypass(
                BypassNote {
                    principal: context.principal,
                    operation: match change {
                        LockChange::Retention(_) => "object-lock.put-retention",
                        LockChange::LegalHold(_) => "object-lock.put-legal-hold",
                    },
                    bucket: bucket_name,
                    key,
                    version: match named {
                        Some(version) => version,
                        None => current_version,
                    },
                    result: if written is Ok {
                        AuditResult::Success
                    } else {
                        AuditResult::Denied
                    },
                },
            )
        }),
{
}

} // verus!
