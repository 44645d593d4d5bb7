use record_store::catalog::{Fault, Snapshot, Stage, Transaction};
use record_store::error::MetadataError;
use record_store::keys::prefix_successor;
use record_store::retention::{DeletionBlock, ObjectLockState, Retention, RetentionMode};
use record_store::schema::{
    BUCKETS, BUCKET_NAMES, BUCKET_USAGE, CLEANUP, CLOCK, CLOCK_WATERMARK, COUNTERS, MARKERS,
    MULTIPART_ORDER, NULL_VERSIONS, OBJECTS, OBJECT_LOCKS, PARTS, VERSIONS, VERSION_ORDER,
};
use record_store::time::Timestamp;
use record_store::tx::{
    adjust_counter, adjusted, as_object, clear_null, current_of, current_version,
    current_version_read, decode_optional, decode_parts, deletion_refusal, enforce_deletable,
    found_bucket, found_or_fallback, has_multipart, indexed_null, insert_version, is_null_version,
    judge_clock, latest_version, list_parts_tx, observe_clock, occupied, ordered_version,
    publish_current, queue_cleanup, read_bucket, read_bucket_usage, read_counter,
    read_counter_read, read_encoded, read_object_lock, read_tx, record_matches, remove_current,
    remove_object_lock, remove_version, set_null, take_null, update_bucket_tx, write_bucket_usage,
    write_object_lock, ClockVerdict, LockRelease,
};
use record_store::types::{
    Bucket, BucketId, DeleteMarker, ObjectId, ObjectKey, ObjectMetadata, ObjectVersionRecord,
    UploadId, VersionId,
};
use redb::{ReadableTable, TableDefinition};

type ByteTable<'a> = TableDefinition<'a, &'static [u8], &'static [u8]>;

fn database() -> redb::Database {
    redb::Database::builder()
        .create_with_backend(redb::backends::InMemoryBackend::new())
        .expect("in-memory database")
}

fn begin(database: &redb::Database) -> Transaction {
    Transaction::begin(database.begin_write().expect("begin write"))
}

fn put(write: &redb::WriteTransaction, table: &str, key: &[u8], value: &[u8]) {
    let mut rows = write.open_table(ByteTable::new(table)).expect("open table");
    rows.insert(key, value).expect("insert");
}

fn held(write: &redb::WriteTransaction, table: &str, key: &[u8]) -> Option<Vec<u8>> {
    let rows = write.open_table(ByteTable::new(table)).expect("open table");
    let found = rows.get(key).expect("get").map(|value| value.value().to_vec());
    found
}

fn object(id: u8, name: &str) -> ObjectVersionRecord {
    ObjectVersionRecord::Object {
        metadata: ObjectMetadata {
            version_id: VersionId([id; 16]),
            bucket_id: BucketId([9; 16]),
            key: ObjectKey(name.to_string()),
        },
    }
}

fn marker(id: u8, name: &str) -> ObjectVersionRecord {
    ObjectVersionRecord::DeleteMarker {
        marker: DeleteMarker {
            version_id: VersionId([id; 16]),
            bucket_id: BucketId([9; 16]),
            key: ObjectKey(name.to_string()),
        },
    }
}

/// A row in these tests is the version's first byte.
fn decode_record(row: Vec<u8>) -> Result<ObjectVersionRecord, MetadataError> {
    match row.first() {
        Some(id) => Ok(object(*id, "draft.txt")),
        None => Err(MetadataError::Encoding("empty row".to_string())),
    }
}

fn decode_object(row: Vec<u8>) -> Result<ObjectMetadata, MetadataError> {
    match decode_record(row)? {
        ObjectVersionRecord::Object { metadata } => Ok(metadata),
        ObjectVersionRecord::DeleteMarker { .. } => unreachable!(),
    }
}

fn decode_marker(row: Vec<u8>) -> Result<DeleteMarker, MetadataError> {
    let metadata = decode_object(row)?;
    Ok(DeleteMarker {
        version_id: metadata.version_id,
        bucket_id: metadata.bucket_id,
        key: metadata.key,
    })
}

fn decode_text(row: Vec<u8>) -> Result<String, MetadataError> {
    String::from_utf8(row).map_err(|error| MetadataError::Encoding(error.to_string()))
}

fn bucket_named(name: String) -> Bucket {
    Bucket { id: BucketId([9; 16]), name, object_lock: None }
}

fn decode_bucket(row: Vec<u8>) -> Result<Bucket, MetadataError> {
    decode_text(row).map(bucket_named)
}

fn encode_bucket(bucket: &Bucket) -> Result<Vec<u8>, MetadataError> {
    Ok(bucket.name.as_bytes().to_vec())
}

fn encode_lock(state: &ObjectLockState) -> Result<Vec<u8>, MetadataError> {
    let mut row = vec![u8::from(state.legal_hold)];
    if let Some(retention) = state.retention {
        row.push(u8::from(retention.mode == RetentionMode::Compliance));
        row.extend_from_slice(&retention.retain_until.unix_seconds().to_be_bytes());
    }
    Ok(row)
}

fn decode_lock(row: Vec<u8>) -> Result<ObjectLockState, MetadataError> {
    if row.is_empty() {
        return Err(MetadataError::Encoding("empty row".to_string()));
    }
    let retention = if row.len() > 1 {
        let mut seconds = [0u8; 8];
        seconds.copy_from_slice(&row[2..10]);
        Some(Retention {
            mode: if row[1] == 1 { RetentionMode::Compliance } else { RetentionMode::Governance },
            retain_until: at(i64::from_be_bytes(seconds)),
        })
    } else {
        None
    };
    Ok(ObjectLockState { retention, legal_hold: row[0] == 1 })
}

fn at(seconds: i64) -> Timestamp {
    Timestamp::new(seconds, 0).expect("on the calendar")
}

fn retained(mode: RetentionMode, until: i64) -> ObjectLockState {
    ObjectLockState {
        retention: Some(Retention { mode, retain_until: at(until) }),
        legal_hold: false,
    }
}

#[test]
fn a_row_that_is_absent_decodes_to_nothing() {
    assert_eq!(decode_optional(None, decode_text), Ok(None));
    assert_eq!(decode_optional(Some(b"row".to_vec()), decode_text), Ok(Some("row".to_string())));
    assert!(matches!(
        decode_optional(Some(vec![0xff]), decode_text),
        Err(MetadataError::Encoding(_))
    ));
}

#[test]
fn a_committed_row_is_read_from_a_snapshot() {
    let database = database();
    let write = database.begin_write().expect("begin write");
    put(&write, BUCKETS, b"id", b"records");
    write.commit().expect("commit");

    let snapshot = Snapshot::begin(database.begin_read().expect("begin read"));
    assert_eq!(
        read_encoded(&snapshot, BUCKETS, b"id", "read bucket", decode_text),
        Ok(Some("records".to_string()))
    );
    assert_eq!(read_encoded(&snapshot, BUCKETS, b"other", "read bucket", decode_text), Ok(None));
    // A table that was never written cannot be opened for reading.
    assert!(matches!(
        read_encoded(&snapshot, PARTS, b"id", "read part", decode_text),
        Err(MetadataError::Database { operation: "open table", .. })
    ));
}

#[test]
fn a_bucket_is_updated_under_its_identifier_and_its_name() {
    let database = database();
    let write = database.begin_write().expect("begin write");
    put(&write, BUCKETS, b"id", b"records");
    let mut tx = Transaction::begin(write);
    assert_eq!(
        read_bucket(&tx, b"id", decode_bucket),
        Ok(Some(bucket_named("records".to_string())))
    );

    let updated = update_bucket_tx(
        &mut tx,
        b"id",
        decode_bucket,
        |bucket| Ok(bucket_named(format!("{}-2", bucket.name))),
        encode_bucket,
    );
    assert_eq!(updated, Ok(bucket_named("records-2".to_string())));

    let write = tx.into_inner();
    assert_eq!(held(&write, BUCKETS, b"id"), Some(b"records-2".to_vec()));
    let names: TableDefinition<&str, &[u8]> = TableDefinition::new(BUCKET_NAMES);
    let rows = write.open_table(names).expect("open table");
    let by_name = rows.get("records-2").expect("get").map(|value| value.value().to_vec());
    assert_eq!(by_name, Some(b"records-2".to_vec()));
}

#[test]
fn a_bucket_that_is_absent_or_refuses_is_not_updated() {
    let database = database();
    let write = database.begin_write().expect("begin write");
    put(&write, BUCKETS, b"id", b"records");
    let mut tx = Transaction::begin(write);
    assert_eq!(
        update_bucket_tx(&mut tx, b"other", decode_bucket, Ok, encode_bucket),
        Err(MetadataError::BucketNotFound)
    );
    assert_eq!(
        update_bucket_tx(
            &mut tx,
            b"id",
            decode_bucket,
            |_| Err(MetadataError::ClockWentBackwards),
            encode_bucket
        ),
        Err(MetadataError::ClockWentBackwards)
    );
    assert_eq!(
        update_bucket_tx(&mut tx, b"id", decode_bucket, Ok, |_| Err(MetadataError::Encoding(
            "no".to_string()
        ))),
        Err(MetadataError::Encoding("no".to_string()))
    );
    assert_eq!(held(&tx.into_inner(), BUCKETS, b"id"), Some(b"records".to_vec()));
}

#[test]
fn a_bucket_without_usage_holds_what_an_empty_one_does() {
    let database = database();
    let mut tx = begin(&database);
    let empty = "empty".to_string();
    assert_eq!(read_bucket_usage(&tx, b"id", empty.clone(), decode_text), Ok(empty.clone()));
    assert_eq!(write_bucket_usage(&mut tx, b"id", &"full", |usage| Ok(usage.as_bytes().to_vec())), Ok(()));
    assert_eq!(read_bucket_usage(&tx, b"id", empty, decode_text), Ok("full".to_string()));
    assert_eq!(
        write_bucket_usage(&mut tx, b"id", &"more", |_| Err(MetadataError::Encoding(
            "usage".to_string()
        ))),
        Err(MetadataError::Encoding("usage".to_string()))
    );
    assert_eq!(held(&tx.into_inner(), BUCKET_USAGE, b"id"), Some(b"full".to_vec()));
}

#[test]
fn what_does_not_encode_is_not_written() {
    let database = database();
    let mut tx = begin(&database);
    let refused = || MetadataError::Encoding("record".to_string());
    assert_eq!(
        insert_version(&mut tx, &object(1, "draft.txt"), b"order", |_| Err(refused())),
        Err(refused())
    );
    for record in [object(1, "draft.txt"), marker(1, "draft.txt")] {
        assert_eq!(
            publish_current(&mut tx, b"key", &record, |_| Err(refused()), |_| Err(refused())),
            Err(refused())
        );
    }
    let write = tx.into_inner();
    assert_eq!(held(&write, VERSIONS, &[1; 16]), None);
    assert_eq!(held(&write, OBJECTS, b"key"), None);
    assert_eq!(held(&write, MARKERS, b"key"), None);
}

#[test]
fn what_is_absent_is_answered_for_what_it_is() {
    let found = bucket_named("records".to_string());
    assert_eq!(found_bucket(Some(found.clone())), Ok(found));
    assert_eq!(found_bucket(None), Err(MetadataError::BucketNotFound));
    assert_eq!(found_or_fallback(Some(3), 7), 3);
    assert_eq!(found_or_fallback(None, 7), 7);
    assert_eq!(ordered_version(Some((b"order".to_vec(), vec![1; 16]))), Some(vec![1; 16]));
    assert_eq!(ordered_version(None), None);
    assert!(is_null_version(&Some(vec![1; 16]), VersionId([1; 16])));
    assert!(!is_null_version(&Some(vec![1; 15]), VersionId([1; 16])));
    assert!(!is_null_version(&None, VersionId([1; 16])));
}

#[test]
fn an_object_goes_before_a_marker() {
    let metadata = || decode_object(vec![1]).expect("an object");
    let deleted = || decode_marker(vec![2]).expect("a marker");
    assert_eq!(current_of(Some(metadata()), Some(deleted())), Some(VersionId([1; 16])));
    assert_eq!(current_of(Some(metadata()), None), Some(VersionId([1; 16])));
    assert_eq!(current_of(None, Some(deleted())), Some(VersionId([2; 16])));
    assert_eq!(current_of(None, None), None);
}

#[test]
fn the_first_part_that_fails_is_reported() {
    let row = |value: &[u8]| Ok((b"key".to_vec(), value.to_vec()));
    let unreadable = || {
        Err(Fault { stage: Stage::Entry, reason: "disk".to_string() })
    };
    assert_eq!(decode_parts(Vec::new(), decode_text), Ok(Vec::new()));
    assert_eq!(
        decode_parts(vec![row(b"first"), row(b"second")], decode_text),
        Ok(vec!["first".to_string(), "second".to_string()])
    );
    assert_eq!(
        decode_parts(vec![row(b"first"), unreadable()], decode_text),
        Err(MetadataError::Database { operation: "read part", reason: "disk".to_string() })
    );
    assert!(matches!(
        decode_parts(vec![row(&[0xff]), unreadable()], decode_text),
        Err(MetadataError::Encoding(_))
    ));
}

#[test]
fn a_total_is_read_from_a_snapshot() {
    let database = database();
    let mut tx = begin(&database);
    adjust_counter(&mut tx, "objects", 4).expect("adjust");
    tx.into_inner().commit().expect("commit");
    let snapshot = Snapshot::begin(database.begin_read().expect("begin read"));
    assert_eq!(read_counter_read(&snapshot, "objects"), Ok(4));
    assert_eq!(read_counter_read(&snapshot, "bytes"), Ok(0));
}

#[test]
fn a_lock_table_that_cannot_be_opened_is_reported_before_the_encoding() {
    let database = database();
    let write = database.begin_write().expect("begin write");
    let shape: TableDefinition<&str, u64> = TableDefinition::new(OBJECT_LOCKS);
    write.open_table(shape).expect("open table");
    let mut tx = Transaction::begin(write);
    let failed = write_object_lock(&mut tx, b"v", retained(RetentionMode::Governance, 5), |_| {
        Err(MetadataError::Encoding("lock".to_string()))
    });
    assert!(matches!(
        failed,
        Err(MetadataError::Database { operation: "open object locks", .. })
    ));
}

#[test]
fn an_inserted_version_is_recorded_and_ordered_until_it_is_removed() {
    let database = database();
    let mut tx = begin(&database);
    let record = object(3, "draft.txt");
    assert_eq!(insert_version(&mut tx, &record, b"order-3", |_| Ok(vec![3])), Ok(()));
    assert_eq!(
        read_tx(&tx, VERSIONS, &[3; 16], "read version", decode_record),
        Ok(Some(object(3, "draft.txt")))
    );
    let write = tx.into_inner();
    assert_eq!(held(&write, VERSION_ORDER, b"order-3"), Some(vec![3; 16]));

    let mut tx = Transaction::begin(write);
    assert_eq!(remove_version(&mut tx, &record, b"order-3"), Ok(()));
    let write = tx.into_inner();
    assert_eq!(held(&write, VERSIONS, &[3; 16]), None);
    assert_eq!(held(&write, VERSION_ORDER, b"order-3"), None);
}

#[test]
fn the_latest_version_is_the_first_under_its_prefix() {
    let database = database();
    let mut tx = begin(&database);
    assert_eq!(latest_version(&tx, b"key/", decode_record), Ok(None));
    insert_version(&mut tx, &object(2, "draft.txt"), b"key/2", |_| Ok(vec![2])).expect("insert");
    insert_version(&mut tx, &object(1, "draft.txt"), b"key/1", |_| Ok(vec![1])).expect("insert");
    insert_version(&mut tx, &object(7, "draft.txt"), b"kex/0", |_| Ok(vec![7])).expect("insert");
    insert_version(&mut tx, &object(8, "draft.txt"), b"key0", |_| Ok(vec![8])).expect("insert");
    assert_eq!(latest_version(&tx, b"key/", decode_record), Ok(Some(object(1, "draft.txt"))));
    remove_version(&mut tx, &object(1, "draft.txt"), b"key/1").expect("remove");
    assert_eq!(latest_version(&tx, b"key/", decode_record), Ok(Some(object(2, "draft.txt"))));
}

#[test]
fn a_prefix_of_the_largest_bytes_has_no_end() {
    assert_eq!(prefix_successor(&[0xff, 0xff]), None);
    assert_eq!(prefix_successor(&[]), None);
    assert_eq!(prefix_successor(&[1, 0xff]), Some(vec![2]));
    assert_eq!(prefix_successor(&[1, 2]), Some(vec![1, 3]));

    let database = database();
    let mut tx = begin(&database);
    insert_version(&mut tx, &object(4, "draft.txt"), &[0xff, 0xff, 1], |_| Ok(vec![4])).expect("insert");
    assert_eq!(latest_version(&tx, &[0xff, 0xff], decode_record), Ok(Some(object(4, "draft.txt"))));
}

#[test]
fn a_null_version_is_taken_once() {
    let database = database();
    let mut tx = begin(&database);
    assert_eq!(take_null(&mut tx, b"key", decode_record), Ok(None));
    insert_version(&mut tx, &object(5, "draft.txt"), b"order-5", |_| Ok(vec![5])).expect("insert");
    set_null(&mut tx, b"key", VersionId([5; 16])).expect("set");
    assert_eq!(take_null(&mut tx, b"key", decode_record), Ok(Some(object(5, "draft.txt"))));
    assert_eq!(take_null(&mut tx, b"key", decode_record), Ok(None));
}

#[test]
fn a_null_index_without_a_record_is_a_contradiction() {
    let database = database();
    let mut tx = begin(&database);
    set_null(&mut tx, b"key", VersionId([6; 16])).expect("set");
    let contradiction = MetadataError::Database {
        operation: "read null version",
        reason: "inconsistent index".to_string(),
    };
    assert_eq!(take_null(&mut tx, b"key", decode_record), Err(contradiction.clone()));
    // The entry is gone all the same.
    assert_eq!(take_null(&mut tx, b"key", decode_record), Ok(None));
    assert_eq!(indexed_null(None), Err(contradiction));
    assert_eq!(indexed_null(Some(object(6, "draft.txt"))), Ok(object(6, "draft.txt")));
}

#[test]
fn clearing_a_null_version_spares_another() {
    let database = database();
    let mut tx = begin(&database);
    set_null(&mut tx, b"key", VersionId([1; 16])).expect("set");
    assert_eq!(clear_null(&mut tx, b"key", VersionId([2; 16])), Ok(()));
    let write = tx.into_inner();
    assert_eq!(held(&write, NULL_VERSIONS, b"key"), Some(vec![1; 16]));
    let mut tx = Transaction::begin(write);
    assert_eq!(clear_null(&mut tx, b"key", VersionId([1; 16])), Ok(()));
    assert_eq!(clear_null(&mut tx, b"key", VersionId([1; 16])), Ok(()));
    assert_eq!(held(&tx.into_inner(), NULL_VERSIONS, b"key"), None);
}

#[test]
fn a_published_version_is_current_until_it_is_removed() {
    let database = database();
    let mut tx = begin(&database);
    assert_eq!(current_version(&tx, b"key", decode_object, decode_marker), Ok(None));
    publish_current(&mut tx, b"key", &marker(2, "draft.txt"), |_| Ok(vec![2]), |_| Ok(vec![2])).expect("publish");
    assert_eq!(
        current_version(&tx, b"key", decode_object, decode_marker),
        Ok(Some(VersionId([2; 16])))
    );
    // An object goes before a marker.
    publish_current(&mut tx, b"key", &object(1, "draft.txt"), |_| Ok(vec![1]), |_| Ok(vec![1])).expect("publish");
    assert_eq!(
        current_version(&tx, b"key", decode_object, decode_marker),
        Ok(Some(VersionId([1; 16])))
    );
    let write = tx.into_inner();
    assert_eq!(held(&write, OBJECTS, b"key"), Some(vec![1]));
    assert_eq!(held(&write, MARKERS, b"key"), Some(vec![2]));

    let mut tx = Transaction::begin(write);
    assert_eq!(remove_current(&mut tx, b"key"), Ok(()));
    assert_eq!(current_version(&tx, b"key", decode_object, decode_marker), Ok(None));
}

#[test]
fn a_snapshot_sees_the_current_version_that_was_committed() {
    let database = database();
    let mut tx = begin(&database);
    publish_current(&mut tx, b"object", &object(1, "draft.txt"), |_| Ok(vec![1]), |_| Ok(vec![1])).expect("publish");
    publish_current(&mut tx, b"marker", &marker(2, "draft.txt"), |_| Ok(vec![2]), |_| Ok(vec![2])).expect("publish");
    tx.into_inner().commit().expect("commit");

    let snapshot = Snapshot::begin(database.begin_read().expect("begin read"));
    for (key, current) in [
        (b"object".as_slice(), Some(VersionId([1; 16]))),
        (b"marker".as_slice(), Some(VersionId([2; 16]))),
        (b"neither".as_slice(), None),
    ] {
        assert_eq!(
            current_version_read(&snapshot, key, decode_object, decode_marker),
            Ok(current)
        );
    }
}

#[test]
fn the_parts_of_an_upload_are_listed_in_order() {
    let database = database();
    let write = database.begin_write().expect("begin write");
    for (upload, part, value) in [
        (1u8, 2u8, b"second".as_slice()),
        (1, 1, b"first".as_slice()),
        (2, 1, b"other".as_slice()),
        (0, 9, b"before".as_slice()),
    ] {
        let mut key = vec![upload; 16];
        key.push(part);
        put(&write, PARTS, &key, value);
    }
    let tx = Transaction::begin(write);
    assert_eq!(
        list_parts_tx(&tx, UploadId([1; 16]), decode_text),
        Ok(vec!["first".to_string(), "second".to_string()])
    );
    assert_eq!(list_parts_tx(&tx, UploadId([3; 16]), decode_text), Ok(Vec::new()));
    assert_eq!(
        list_parts_tx(&tx, UploadId([2; 16]), |_| Err::<String, _>(MetadataError::Encoding(
            "part".to_string()
        ))),
        Err(MetadataError::Encoding("part".to_string()))
    );
}

#[test]
fn an_unfinished_upload_is_noticed() {
    let database = database();
    let write = database.begin_write().expect("begin write");
    put(&write, MULTIPART_ORDER, b"bucket-1/upload", b"");
    let tx = Transaction::begin(write);
    assert_eq!(has_multipart(&tx, b"bucket-1/"), Ok(true));
    assert_eq!(has_multipart(&tx, b"bucket-2/"), Ok(false));
}

#[test]
fn an_entry_that_cannot_be_read_is_still_an_entry() {
    let fault = |stage| Fault { stage, reason: "disk".to_string() };
    assert_eq!(occupied::<()>(Ok(None)), Ok(false));
    assert_eq!(occupied(Ok(Some(()))), Ok(true));
    assert_eq!(occupied::<()>(Err(fault(Stage::Entry))), Ok(true));
    assert_eq!(occupied::<()>(Err(fault(Stage::Open))), Err(fault(Stage::Open)));
    assert_eq!(occupied::<()>(Err(fault(Stage::Access))), Err(fault(Stage::Access)));
}

#[test]
fn a_table_of_another_shape_cannot_be_opened() {
    let database = database();
    let write = database.begin_write().expect("begin write");
    let shape: TableDefinition<&str, u64> = TableDefinition::new(MULTIPART_ORDER);
    write.open_table(shape).expect("open table");
    let tx = Transaction::begin(write);
    assert!(matches!(
        has_multipart(&tx, b"bucket-1/"),
        Err(MetadataError::Database { operation: "open multipart order", .. })
    ));
}

#[test]
fn a_record_belongs_to_its_bucket_and_key() {
    let key = ObjectKey("draft.txt".to_string());
    let other = ObjectKey("final.txt".to_string());
    for record in [object(1, "draft.txt"), marker(1, "draft.txt")] {
        assert!(record_matches(&record, BucketId([9; 16]), &key));
        assert!(!record_matches(&record, BucketId([8; 16]), &key));
        assert!(!record_matches(&record, BucketId([9; 16]), &other));
    }
}

#[test]
fn only_a_version_with_a_payload_has_object_metadata() {
    let record = object(1, "draft.txt");
    let metadata = as_object(&record).expect("an object");
    assert_eq!(metadata.version_id, VersionId([1; 16]));
    assert_eq!(record.version_id(), VersionId([1; 16]));
    assert_eq!(as_object(&marker(1, "draft.txt")), None);
    assert_eq!(marker(2, "draft.txt").version_id(), VersionId([2; 16]));
}

#[test]
fn a_payload_is_queued_for_removal() {
    let database = database();
    let mut tx = begin(&database);
    assert_eq!(queue_cleanup(&mut tx, ObjectId([4; 16])), Ok(()));
    let write = tx.into_inner();
    let flags: TableDefinition<&[u8], u8> = TableDefinition::new(CLEANUP);
    let rows = write.open_table(flags).expect("open table");
    let flag = rows.get([4u8; 16].as_slice()).expect("get").map(|value| value.value());
    assert_eq!(flag, Some(1));
}

#[test]
fn a_total_starts_at_zero_and_stays_in_range() {
    let database = database();
    let mut tx = begin(&database);
    assert_eq!(read_counter(&tx, "objects"), Ok(0));
    assert_eq!(adjust_counter(&mut tx, "objects", -1), Err(MetadataError::CounterOutOfRange));
    assert_eq!(adjust_counter(&mut tx, "objects", 5), Ok(()));
    assert_eq!(adjust_counter(&mut tx, "objects", -2), Ok(()));
    assert_eq!(read_counter(&tx, "objects"), Ok(3));
    assert_eq!(
        adjust_counter(&mut tx, "objects", i128::from(u64::MAX)),
        Err(MetadataError::CounterOutOfRange)
    );
    assert_eq!(
        adjust_counter(&mut tx, "objects", i128::MAX),
        Err(MetadataError::CounterOutOfRange)
    );
    assert_eq!(read_counter(&tx, "objects"), Ok(3));
    assert_eq!(read_counter(&tx, "bytes"), Ok(0));
    let write = tx.into_inner();
    let totals: TableDefinition<&str, u64> = TableDefinition::new(COUNTERS);
    let rows = write.open_table(totals).expect("open table");
    let total = rows.get("objects").expect("get").map(|value| value.value());
    assert_eq!(total, Some(3));
}

#[test]
fn a_sum_is_owed_exactly_where_a_total_can_have_it() {
    assert_eq!(adjusted(0, 0), Some(0));
    assert_eq!(adjusted(u64::MAX, 0), Some(u64::MAX));
    assert_eq!(adjusted(u64::MAX, 1), None);
    assert_eq!(adjusted(7, -7), Some(0));
    assert_eq!(adjusted(7, -8), None);
    assert_eq!(adjusted(1, i128::MAX), None);
    assert_eq!(adjusted(0, i128::MIN), None);
}

#[test]
fn a_lock_is_read_as_it_was_written_and_dropped_once_nothing_is_held() {
    let database = database();
    let mut tx = begin(&database);
    assert_eq!(read_object_lock(&tx, b"v", decode_lock), Ok(ObjectLockState::default()));
    let state = retained(RetentionMode::Governance, 500).with_legal_hold(true);
    assert_eq!(write_object_lock(&mut tx, b"v", state, encode_lock), Ok(()));
    assert_eq!(read_object_lock(&tx, b"v", decode_lock), Ok(state));
    assert_eq!(
        write_object_lock(&mut tx, b"v", ObjectLockState::default(), encode_lock),
        Ok(())
    );
    assert_eq!(held(&tx.into_inner(), OBJECT_LOCKS, b"v"), None);
}

#[test]
fn a_lock_that_does_not_encode_is_not_written() {
    let database = database();
    let mut tx = begin(&database);
    let refused = write_object_lock(&mut tx, b"v", retained(RetentionMode::Governance, 5), |_| {
        Err(MetadataError::Encoding("lock".to_string()))
    });
    assert_eq!(refused, Err(MetadataError::Encoding("lock".to_string())));
    assert_eq!(held(&tx.into_inner(), OBJECT_LOCKS, b"v"), None);
}

#[test]
fn a_removed_lock_reads_as_unlocked() {
    let database = database();
    let mut tx = begin(&database);
    let state = retained(RetentionMode::Compliance, 500);
    write_object_lock(&mut tx, b"v", state, encode_lock).expect("write");
    assert_eq!(remove_object_lock(&mut tx, b"v"), Ok(()));
    assert_eq!(read_object_lock(&tx, b"v", decode_lock), Ok(ObjectLockState::default()));
}

#[test]
fn the_clock_may_fall_behind_by_the_tolerance_and_no_further() {
    let mark = Some(100_000_000);
    assert_eq!(judge_clock(None, -5, 0), ClockVerdict::Advance);
    assert_eq!(judge_clock(mark, 100_000_001, 3), ClockVerdict::Advance);
    assert_eq!(judge_clock(mark, 100_000_000, 3), ClockVerdict::Keep);
    assert_eq!(judge_clock(mark, 97_000_000, 3), ClockVerdict::Keep);
    assert_eq!(judge_clock(mark, 96_999_999, 3), ClockVerdict::Behind);
    assert_eq!(judge_clock(Some(i64::MIN), i64::MIN, u32::MAX), ClockVerdict::Keep);
}

#[test]
fn the_mark_rises_and_is_never_lowered() {
    let database = database();
    let mut tx = begin(&database);
    assert_eq!(observe_clock(&mut tx, LockRelease::new(at(100), 10)), Ok(()));
    assert_eq!(observe_clock(&mut tx, LockRelease::new(at(95), 10)), Ok(()));
    assert_eq!(
        observe_clock(&mut tx, LockRelease::new(at(89), 10)),
        Err(MetadataError::ClockWentBackwards)
    );
    assert_eq!(observe_clock(&mut tx, LockRelease::new(at(200), 10)), Ok(()));
    assert_eq!(
        observe_clock(&mut tx, LockRelease::new(at(100), 10)),
        Err(MetadataError::ClockWentBackwards)
    );
    let write = tx.into_inner();
    let clock: TableDefinition<&str, i64> = TableDefinition::new(CLOCK);
    let rows = write.open_table(clock).expect("open table");
    let mark = rows.get(CLOCK_WATERMARK).expect("get").map(|value| value.value());
    assert_eq!(mark, Some(200_000_000));
}

#[test]
fn a_bypass_releases_a_governance_retention_and_nothing_else() {
    let plain = LockRelease::new(at(50), 0);
    let bypass = plain.with_governance_bypass(true);
    assert!(bypass.bypass_governance && !plain.bypass_governance);
    let governance = retained(RetentionMode::Governance, 100);
    let compliance = retained(RetentionMode::Compliance, 100);
    let hold = ObjectLockState::default().with_legal_hold(true);
    assert!(deletion_refusal(&governance, plain).is_some());
    assert_eq!(deletion_refusal(&governance, bypass), None);
    assert!(deletion_refusal(&compliance, bypass).is_some());
    assert_eq!(deletion_refusal(&hold, bypass), Some(DeletionBlock::LegalHold));
    assert_eq!(deletion_refusal(&compliance, LockRelease::new(at(100), 0)), None);
}

#[test]
fn a_version_is_removed_only_when_nothing_holds_it() {
    let database = database();
    let mut tx = begin(&database);
    let release = LockRelease::new(at(50), 0);
    assert_eq!(enforce_deletable(&mut tx, b"free", release, decode_lock), Ok(()));

    let state = retained(RetentionMode::Compliance, 100);
    write_object_lock(&mut tx, b"v", state, encode_lock).expect("write");
    assert_eq!(
        enforce_deletable(&mut tx, b"v", release, decode_lock),
        Err(MetadataError::VersionLocked(DeletionBlock::Retained(
            state.retention.expect("retained")
        )))
    );
    assert_eq!(
        enforce_deletable(&mut tx, b"v", LockRelease::new(at(100), 0), decode_lock),
        Ok(())
    );
    // A clock that came back does not release it again, nor does it touch a
    // version that is not held.
    assert_eq!(
        enforce_deletable(&mut tx, b"v", LockRelease::new(at(99), 0), decode_lock),
        Err(MetadataError::ClockWentBackwards)
    );
    assert_eq!(
        enforce_deletable(&mut tx, b"free", LockRelease::new(at(1), 0), decode_lock),
        Ok(())
    );
}
