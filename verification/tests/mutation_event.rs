use record_store::mutation_event::{MutationEvent, StorageEventType, WriteOrigin};
use record_store::time::Timestamp;
use record_store::types::{EventId, VersionId};

/// The wire names are the webhook contract; a rename would silently break every
/// subscriber filtering on them.
#[test]
fn event_type_names_are_pinned() {
    for (kind, name) in [
        (StorageEventType::BucketCreated, "bucket.created"),
        (StorageEventType::BucketDeleted, "bucket.deleted"),
        (StorageEventType::ObjectCreated, "object.created"),
        (StorageEventType::ObjectUpdated, "object.updated"),
        (StorageEventType::ObjectDeleted, "object.deleted"),
        (StorageEventType::ObjectRestored, "object.restored"),
        (StorageEventType::MultipartCompleted, "multipart.completed"),
        (StorageEventType::MultipartAborted, "multipart.aborted"),
    ] {
        assert_eq!(kind.as_str(), name);
        assert_eq!(kind.to_json(), format!("\"{name}\""));
    }
}

#[test]
fn an_unstated_origin_is_an_ordinary_write() {
    assert_eq!(WriteOrigin::default(), WriteOrigin::Direct);
    // A command written before origins existed decodes as one.
    assert_eq!(origin_of("{}"), Some(WriteOrigin::Direct));
}

/// Decodes the origin of a command.
fn origin_of(command: &str) -> Option<WriteOrigin> {
    let command: serde_json::Value = serde_json::from_str(command).expect("decode");
    let name = command.get("origin").and_then(|origin| origin.as_str()).map(str::to_string);
    WriteOrigin::stated(name.as_ref())
}

#[test]
fn a_stated_origin_is_kept() {
    for (origin, name) in [
        (WriteOrigin::Direct, "direct"),
        (WriteOrigin::Copy, "copy"),
        (WriteOrigin::MultipartCompletion, "multipart_completion"),
        (WriteOrigin::Restore, "restore"),
    ] {
        assert_eq!(origin.as_str(), name);
        assert_eq!(origin_of(&format!("{{\"origin\":\"{name}\"}}")), Some(origin));
    }
    assert_eq!(origin_of("{\"origin\":\"elsewhere\"}"), None);
}

#[test]
fn a_type_decodes_from_what_it_encodes_to() {
    for kind in [
        StorageEventType::BucketCreated,
        StorageEventType::BucketDeleted,
        StorageEventType::ObjectCreated,
        StorageEventType::ObjectUpdated,
        StorageEventType::ObjectDeleted,
        StorageEventType::ObjectRestored,
        StorageEventType::MultipartCompleted,
        StorageEventType::MultipartAborted,
    ] {
        let name: String = serde_json::from_str(&kind.to_json()).expect("decode");
        assert_eq!(StorageEventType::from_wire_name(&name), Some(kind));
    }
    assert_eq!(StorageEventType::from_wire_name(&"object.moved".to_string()), None);
}

#[test]
fn an_event_republished_is_the_same_event() {
    let owed = MutationEvent {
        sequence: 7,
        event_id: EventId([1; 16]),
        event_type: StorageEventType::ObjectRestored,
        occurred_at: Timestamp::new(1_700_000_000, 0).expect("on the calendar"),
        bucket: "records".to_string(),
        key: Some("draft.txt".to_string()),
        version_id: Some(VersionId([2; 16])),
        size: Some(5),
    };
    assert_eq!(owed.clone(), owed);
    assert_eq!(owed.event_type.as_str(), "object.restored");
}
