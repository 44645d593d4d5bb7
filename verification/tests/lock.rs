use record_store::audit::{AuditEventId, AuditResult, BypassNote};
use record_store::catalog::Transaction;
use record_store::error::{map_metadata, MetadataError, ServiceError};
use record_store::lock::{
    note_bypass, BypassRecord, LockAction, LockChange, LockContext, LockEvent, LockFlow,
    LockPolicy, LockReply, ObjectLockService, VersionLock,
};
use record_store::retention::{
    DefaultRetention, DeletionBlock, ObjectLockConfiguration, ObjectLockState, Retention,
    RetentionMode, RetentionPeriod,
};
use record_store::time::{Timestamp, MAX_SECONDS};
use record_store::tx::{enforce_deletable, write_object_lock, LockRelease};
use record_store::types::{Bucket, BucketId, ObjectKey, VersionId};

const NOW: i64 = 1_700_000_000;
const DAY: i64 = 86_400;

fn at(seconds: i64) -> Timestamp {
    Timestamp::new(seconds, 0).expect("on the calendar")
}

fn service() -> ObjectLockService {
    ObjectLockService { policy: LockPolicy { clock_tolerance_seconds: 300, audited: true } }
}

fn key(name: &str) -> ObjectKey {
    ObjectKey(name.to_string())
}

fn bucket(object_lock: Option<ObjectLockConfiguration>) -> Bucket {
    Bucket { id: BucketId([9; 16]), name: "records".to_string(), object_lock }
}

fn locked_bucket() -> Bucket {
    bucket(Some(ObjectLockConfiguration { default_retention: None }))
}

fn retained(mode: RetentionMode, until: i64) -> ObjectLockState {
    ObjectLockState {
        retention: Some(Retention { mode, retain_until: at(until) }),
        legal_hold: false,
    }
}

fn run(service: &ObjectLockService, mut flow: LockFlow, events: Vec<LockEvent>) -> LockFlow {
    for event in events {
        flow = service.step(flow, event);
    }
    flow
}

fn answer(flow: LockFlow) -> Result<LockReply, ServiceError> {
    assert_eq!(flow.action(), LockAction::Done);
    flow.into_reply().expect("the request is answered")
}

/// Every bypass writes a durable record, including one that did not work. An
/// attempted override of a retention is exactly as interesting to an auditor as
/// a successful one.
#[test]
fn every_governance_bypass_is_recorded_whether_or_not_it_succeeds() {
    let database = redb::Database::builder()
        .create_with_backend(redb::backends::InMemoryBackend::new())
        .expect("in-memory database");
    let mut tx = Transaction::begin(database.begin_write().expect("begin write"));
    let governance = retained(RetentionMode::Governance, NOW + 30 * DAY);
    let compliance = retained(RetentionMode::Compliance, NOW + 30 * DAY);
    let decode = |row: Vec<u8>| {
        Ok(if row == b"governance" { governance } else { compliance })
    };
    write_object_lock(&mut tx, b"draft", governance, |_| Ok(b"governance".to_vec()))
        .expect("put under governance retention");
    write_object_lock(&mut tx, b"final", compliance, |_| Ok(b"compliance".to_vec()))
        .expect("put under compliance retention");

    let policy = service().policy;
    let context = LockContext::principal("service_account:auditor-test".to_string())
        .with_governance_bypass(true);

    // A bypass that works.
    let released = enforce_deletable(&mut tx, b"draft", policy.release(&context, at(NOW)), decode);
    assert_eq!(released, Ok(()), "an authorized bypass releases a governance retention");

    // A bypass that does not, because compliance mode has none.
    let refused = enforce_deletable(&mut tx, b"final", policy.release(&context, at(NOW)), decode);
    let error = map_metadata(refused.clone().expect_err("compliance mode has no bypass"));
    assert!(matches!(error, ServiceError::ObjectLocked(_)), "{error:?}");

    let mut events = Vec::new();
    for (name, version, outcome) in [("draft.txt", 1, released), ("final.txt", 2, refused)] {
        let note = note_bypass(
            &context,
            "object-lock.bypass-delete-version",
            &"records".to_string(),
            &key(name),
            VersionId([version; 16]),
            outcome.is_ok(),
        )
        .expect("a bypass was exercised");
        let id = AuditEventId([version; 16]);
        match policy.record_bypass(&note, id, at(NOW), format!("version-{version}")) {
            BypassRecord::Append(event) => events.push(event),
            BypassRecord::Warn => panic!("a trail is configured"),
        }
    }
    assert_eq!(events.len(), 2, "both attempts are recorded");
    assert!(events.iter().any(|event| event.result == AuditResult::Success));
    assert!(events.iter().any(|event| event.result == AuditResult::Denied));
    for event in &events {
        assert_eq!(event.principal, "service_account:auditor-test");
        assert!(
            event.metadata.iter().any(|(name, _)| name == "version_id"),
            "a record names the version it concerns"
        );
    }
}

/// An operation that presents no bypass must not produce a bypass record, or the
/// audit trail stops meaning anything.
#[test]
fn an_ordinary_delete_writes_no_bypass_record() {
    let database = redb::Database::builder()
        .create_with_backend(redb::backends::InMemoryBackend::new())
        .expect("in-memory database");
    let mut tx = Transaction::begin(database.begin_write().expect("begin write"));
    let context = LockContext::principal("service_account:ordinary".to_string());
    let release = service().policy.release(&context, at(NOW));
    let deleted = enforce_deletable(&mut tx, b"plain", release, |_| {
        Ok(ObjectLockState::default())
    });
    assert_eq!(deleted, Ok(()), "an unlocked version deletes normally");
    let note = note_bypass(
        &context,
        "object-lock.bypass-delete-version",
        &"records".to_string(),
        &key("plain.txt"),
        VersionId([1; 16]),
        deleted.is_ok(),
    );
    assert!(note.is_none(), "no bypass was exercised");
}

#[test]
fn a_bucket_default_is_applied_to_writes_that_name_no_lock() {
    let service = service();
    let configuration = ObjectLockConfiguration {
        default_retention: Some(DefaultRetention {
            mode: RetentionMode::Compliance,
            period: RetentionPeriod::Days(7),
        }),
    };
    let flow = service.set_bucket_configuration("records".to_string(), configuration);
    let flow = run(
        &service,
        flow,
        vec![
            LockEvent::Validated(Ok(())),
            LockEvent::Admitted(true),
            LockEvent::BucketFound(Ok(Some(locked_bucket()))),
            LockEvent::BucketLocked(Ok(())),
        ],
    );
    assert_eq!(flow.action(), LockAction::WriteConfiguration(BucketId([9; 16]), configuration));
    let written = bucket(Some(configuration));
    let flow = service.step(flow, LockEvent::ConfigurationWritten(Ok(written.clone())));
    assert_eq!(answer(flow), Ok(LockReply::Bucket(written.clone())), "set default retention");

    let state = ObjectLockService::initial_state(&written, None, at(NOW))
        .expect("put")
        .expect("read lock");
    let retention = state
        .retention
        .expect("the bucket default applies to a write that named no lock");
    assert_eq!(retention.mode, RetentionMode::Compliance);
    assert!(at(NOW + 6 * DAY).is_before(&retention.retain_until));
    assert_eq!(retention.retain_until, at(NOW + 7 * DAY));
}

/// A background worker is not a person exercising a permission, so it carries no
/// bypass no matter what it is scanning.
#[test]
fn a_system_context_never_carries_a_bypass() {
    assert!(!LockContext::system("lifecycle").bypass_governance);
    assert_eq!(LockContext::system("lifecycle").principal, "system:lifecycle");
}

#[test]
fn an_explicit_request_wins_over_the_default() {
    let requested = retained(RetentionMode::Governance, NOW + DAY);
    assert_eq!(
        ObjectLockService::initial_state(&locked_bucket(), Some(requested), at(NOW)),
        Ok(Some(requested))
    );
    assert_eq!(
        ObjectLockService::initial_state(&locked_bucket(), None, at(NOW)),
        Ok(Some(ObjectLockState::default()))
    );
}

#[test]
fn a_bucket_without_object_lock_takes_no_lock() {
    let plain = bucket(None);
    let requested = retained(RetentionMode::Governance, NOW + DAY);
    assert_eq!(
        ObjectLockService::initial_state(&plain, Some(requested), at(NOW)),
        Err(ServiceError::ObjectLockNotEnabled)
    );
    assert_eq!(
        ObjectLockService::initial_state(&plain, Some(ObjectLockState::default()), at(NOW)),
        Ok(None)
    );
    assert_eq!(ObjectLockService::initial_state(&plain, None, at(NOW)), Ok(None));
}

#[test]
fn a_default_that_ends_beyond_the_calendar_is_refused() {
    let rule = bucket(Some(ObjectLockConfiguration {
        default_retention: Some(DefaultRetention {
            mode: RetentionMode::Governance,
            period: RetentionPeriod::Days(1),
        }),
    }));
    assert_eq!(
        ObjectLockService::initial_state(&rule, None, at(MAX_SECONDS)),
        Err(ServiceError::RetentionOutOfRange)
    );
}

#[test]
fn a_record_says_who_did_what_to_which_version() {
    let note = BypassNote {
        principal: "alice".to_string(),
        operation: "object-lock.put-retention",
        bucket: "records".to_string(),
        key: key("a/b.txt"),
        version: VersionId([1; 16]),
        result: AuditResult::Denied,
    };
    let policy = LockPolicy { clock_tolerance_seconds: 0, audited: true };
    let id = AuditEventId([5; 16]);
    let event = match policy.record_bypass(&note, id, at(NOW), "v-1".to_string()) {
        BypassRecord::Append(event) => event,
        BypassRecord::Warn => panic!("a trail is configured"),
    };
    assert_eq!(event.event_id, id);
    assert_eq!(event.timestamp, at(NOW));
    assert_eq!(event.principal, "alice");
    assert_eq!(event.operation, "object-lock.put-retention");
    assert_eq!(event.resource, "bucket:records/a/b.txt");
    assert_eq!(event.result, AuditResult::Denied);
    assert_eq!(event.request_id, None);
    assert_eq!(event.credential_id, None);
    assert_eq!(event.source_ip, None);
    assert_eq!(
        event.metadata,
        vec![
            ("bypass".to_string(), "governance".to_string()),
            ("version_id".to_string(), "v-1".to_string()),
        ]
    );

    let silent = LockPolicy { clock_tolerance_seconds: 0, audited: false };
    assert_eq!(
        silent.record_bypass(&note, id, at(NOW), "v-1".to_string()),
        BypassRecord::Warn
    );
}

#[test]
fn a_configuration_is_reported_or_missing() {
    let service = service();
    let asked = |found| {
        let flow = service.bucket_configuration("records".to_string());
        assert_eq!(flow.action(), LockAction::Admit);
        let flow = service.step(flow, LockEvent::Admitted(true));
        assert_eq!(flow.action(), LockAction::FindBucket("records".to_string()));
        answer(service.step(flow, LockEvent::BucketFound(found)))
    };
    let without_rule = ObjectLockConfiguration { default_retention: None };
    assert_eq!(asked(Ok(Some(locked_bucket()))), Ok(LockReply::Configuration(without_rule)));
    assert_eq!(
        asked(Ok(Some(bucket(None)))),
        Err(ServiceError::ObjectLockConfigurationNotFound)
    );
    assert_eq!(asked(Ok(None)), Err(ServiceError::BucketNotFound));
    assert_eq!(
        asked(Err(MetadataError::ClockWentBackwards)),
        Err(ServiceError::Metadata(MetadataError::ClockWentBackwards))
    );
}

#[test]
fn a_request_without_a_permit_is_unavailable() {
    let service = service();
    let flow = service.bucket_configuration("records".to_string());
    assert_eq!(
        answer(service.step(flow, LockEvent::Admitted(false))),
        Err(ServiceError::Unavailable)
    );
}

#[test]
fn a_configuration_is_validated_before_anything_else() {
    let service = service();
    let configuration = ObjectLockConfiguration { default_retention: None };
    let flow = service.set_bucket_configuration("records".to_string(), configuration);
    assert_eq!(flow.action(), LockAction::Validate(configuration));
    assert_eq!(
        answer(service.step(flow, LockEvent::Validated(Err("zero days".to_string())))),
        Err(ServiceError::InvalidConfiguration("zero days".to_string()))
    );
}

#[test]
fn a_bucket_that_cannot_be_locked_is_not_written() {
    let service = service();
    let configuration = ObjectLockConfiguration { default_retention: None };
    let flow = run(
        &service,
        service.set_bucket_configuration("records".to_string(), configuration),
        vec![
            LockEvent::Validated(Ok(())),
            LockEvent::Admitted(true),
            LockEvent::BucketFound(Ok(Some(locked_bucket()))),
        ],
    );
    assert_eq!(
        flow.action(),
        LockAction::LockBucket { bucket: BucketId([9; 16]), exclusive: true }
    );
    let flow = service.step(flow, LockEvent::BucketLocked(Err(ServiceError::Coordination)));
    assert_eq!(answer(flow), Err(ServiceError::Coordination));
}

#[test]
fn the_current_version_is_the_default() {
    let service = service();
    let state = retained(RetentionMode::Governance, NOW);
    let flow = run(
        &service,
        service.get("records".to_string(), key("draft.txt"), None),
        vec![LockEvent::Admitted(true), LockEvent::BucketFound(Ok(Some(locked_bucket())))],
    );
    assert_eq!(flow.action(), LockAction::FindVersion(BucketId([9; 16]), key("draft.txt")));
    let flow = service.step(flow, LockEvent::VersionFound(Ok(Some(VersionId([4; 16])))));
    assert_eq!(flow.action(), LockAction::ReadLock(VersionId([4; 16])));
    let flow = service.step(flow, LockEvent::LockRead(Ok(state)));
    assert_eq!(
        answer(flow),
        Ok(LockReply::Version(VersionLock { version_id: VersionId([4; 16]), state }))
    );
}

#[test]
fn a_key_without_a_version_is_not_found() {
    let service = service();
    let missing = |found| {
        answer(run(
            &service,
            service.get("records".to_string(), key("draft.txt"), None),
            vec![
                LockEvent::Admitted(true),
                LockEvent::BucketFound(Ok(Some(locked_bucket()))),
                LockEvent::VersionFound(found),
            ],
        ))
    };
    assert_eq!(missing(Ok(None)), Err(ServiceError::ObjectNotFound));
    assert_eq!(missing(Err(MetadataError::BucketNotFound)), Err(ServiceError::BucketNotFound));
}

#[test]
fn a_bucket_without_object_lock_refuses_before_a_lock_is_read() {
    let service = service();
    let flow = run(
        &service,
        service.get("records".to_string(), key("draft.txt"), Some(VersionId([1; 16]))),
        vec![LockEvent::Admitted(true), LockEvent::BucketFound(Ok(Some(bucket(None))))],
    );
    assert_eq!(answer(flow), Err(ServiceError::ObjectLockNotEnabled));
}

#[test]
fn a_known_version_is_read_without_a_permit() {
    let service = service();
    let flow = service.state_of(VersionId([1; 16]));
    assert_eq!(flow.action(), LockAction::ReadLock(VersionId([1; 16])));
    let state = ObjectLockState::default().with_legal_hold(true);
    assert_eq!(
        answer(service.step(flow, LockEvent::LockRead(Ok(state)))),
        Ok(LockReply::State(state))
    );
    let failed = MetadataError::Encoding("row".to_string());
    assert_eq!(
        answer(service.step(
            service.state_of(VersionId([1; 16])),
            LockEvent::LockRead(Err(failed.clone()))
        )),
        Err(ServiceError::Metadata(failed))
    );
}

/// Runs a change up to its write and returns what is then to be written.
fn up_to_write(service: &ObjectLockService, flow: LockFlow, current: ObjectLockState) -> LockFlow {
    let flow = run(
        service,
        flow,
        vec![LockEvent::Admitted(true), LockEvent::BucketFound(Ok(Some(locked_bucket())))],
    );
    assert_eq!(
        flow.action(),
        LockAction::LockBucket { bucket: BucketId([9; 16]), exclusive: false }
    );
    let flow = service.step(flow, LockEvent::BucketLocked(Ok(())));
    assert_eq!(flow.action(), LockAction::ReadLock(VersionId([1; 16])));
    let flow = service.step(flow, LockEvent::LockRead(Ok(current)));
    assert_eq!(flow.action(), LockAction::ReadClock);
    service.step(flow, LockEvent::ClockRead(at(NOW)))
}

#[test]
fn a_retention_is_replaced_and_the_hold_kept() {
    let service = service();
    let current = retained(RetentionMode::Governance, NOW).with_legal_hold(true);
    let longer = retained(RetentionMode::Compliance, NOW + DAY);
    let flow = service.put_retention(
        "records".to_string(),
        key("draft.txt"),
        Some(VersionId([1; 16])),
        longer.retention,
        LockContext::principal("alice".to_string()),
    );
    let flow = up_to_write(&service, flow, current);
    let requested = longer.with_legal_hold(true);
    assert_eq!(
        flow.action(),
        LockAction::WriteLock {
            bucket: BucketId([9; 16]),
            key: key("draft.txt"),
            version: VersionId([1; 16]),
            requested,
            release: LockRelease::new(at(NOW), 300),
        }
    );
    // No bypass was presented, so the answer follows at once.
    let flow = service.step(flow, LockEvent::LockWritten(Ok(requested)));
    assert_eq!(
        answer(flow),
        Ok(LockReply::Version(VersionLock { version_id: VersionId([1; 16]), state: requested }))
    );
}

#[test]
fn a_change_that_names_no_version_is_made_to_the_current_one() {
    let service = service();
    let flow = run(
        &service,
        service.put_legal_hold(
            "records".to_string(),
            key("draft.txt"),
            None,
            true,
            LockContext::principal("alice".to_string()),
        ),
        vec![
            LockEvent::Admitted(true),
            LockEvent::BucketFound(Ok(Some(locked_bucket()))),
            LockEvent::VersionFound(Ok(Some(VersionId([4; 16])))),
            LockEvent::BucketLocked(Ok(())),
            LockEvent::LockRead(Ok(ObjectLockState::default())),
            LockEvent::ClockRead(at(NOW)),
        ],
    );
    assert_eq!(
        flow.action(),
        LockAction::WriteLock {
            bucket: BucketId([9; 16]),
            key: key("draft.txt"),
            version: VersionId([4; 16]),
            requested: ObjectLockState::default().with_legal_hold(true),
            release: LockRelease::new(at(NOW), 300),
        }
    );
}

#[test]
fn a_bypass_is_recorded_before_the_answer_whatever_the_write_came_to() {
    let service = service();
    let current = retained(RetentionMode::Governance, NOW + DAY);
    let block = DeletionBlock::Retained(current.retention.expect("retained"));
    for (written, result, reply) in [
        (
            Ok(ObjectLockState::default()),
            AuditResult::Success,
            Ok(LockReply::Version(VersionLock {
                version_id: VersionId([1; 16]),
                state: ObjectLockState::default(),
            })),
        ),
        (
            Err(MetadataError::VersionLocked(block)),
            AuditResult::Denied,
            Err(ServiceError::ObjectLocked(block)),
        ),
        (
            Err(MetadataError::ClockWentBackwards),
            AuditResult::Denied,
            Err(ServiceError::RetentionClockUnavailable),
        ),
    ] {
        let flow = service.put_legal_hold(
            "records".to_string(),
            key("draft.txt"),
            Some(VersionId([1; 16])),
            true,
            LockContext::principal("alice".to_string()).with_governance_bypass(true),
        );
        let flow = up_to_write(&service, flow, current);
        let flow = service.step(flow, LockEvent::LockWritten(written));
        assert_eq!(
            flow.action(),
            LockAction::RecordBypass(BypassNote {
                principal: "alice".to_string(),
                operation: "object-lock.put-legal-hold",
                bucket: "records".to_string(),
                key: key("draft.txt"),
                version: VersionId([1; 16]),
                result,
            })
        );
        assert_eq!(answer(service.step(flow, LockEvent::BypassRecorded)), reply);
    }
}

#[test]
fn a_change_is_named_for_what_it_does() {
    assert_eq!(LockChange::Retention(None).operation(), "object-lock.put-retention");
    assert_eq!(LockChange::LegalHold(false).operation(), "object-lock.put-legal-hold");
    let state = retained(RetentionMode::Governance, NOW).with_legal_hold(true);
    assert_eq!(
        LockChange::Retention(None).apply(state),
        ObjectLockState { retention: None, legal_hold: true }
    );
    assert_eq!(
        LockChange::LegalHold(false).apply(state),
        retained(RetentionMode::Governance, NOW)
    );
}

#[test]
fn the_clock_is_observed_without_a_bypass() {
    let service = service();
    let observe = |observed| {
        let flow = service.observe_clock();
        assert_eq!(flow.action(), LockAction::ReadClock);
        let flow = service.step(flow, LockEvent::ClockRead(at(NOW)));
        assert_eq!(
            flow.action(),
            LockAction::ObserveClock(LockRelease::new(at(NOW), 300))
        );
        answer(service.step(flow, LockEvent::ClockObserved(observed)))
    };
    assert_eq!(observe(Ok(())), Ok(LockReply::Observed));
    assert_eq!(
        observe(Err(MetadataError::ClockWentBackwards)),
        Err(ServiceError::RetentionClockUnavailable)
    );
    assert_eq!(
        observe(Err(MetadataError::CounterOutOfRange)),
        Err(ServiceError::Metadata(MetadataError::CounterOutOfRange))
    );
}

#[test]
fn an_event_that_answers_nothing_changes_nothing() {
    let service = service();
    let flow = service.observe_clock();
    let flow = service.step(flow, LockEvent::BypassRecorded);
    assert_eq!(flow, service.observe_clock());
    assert_eq!(flow.into_reply(), None);
}
