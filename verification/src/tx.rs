//! Durable single-node metadata catalog: what each operation reads and writes.
//!
//! Rows hold encoded records. The functions here are generic in the codec: they
//! take the function that decodes a row, or the bytes a record was encoded to.

use vstd::prelude::*;

use crate::catalog::{
    is_row_scan, lookup, reports_fault, row_within, rows, scan, scanned, CatalogView, Fault, Snapshot, Stage, Transaction,
};
use crate::error::{backend, MetadataError};
use crate::keys::{key_before, prefix_successor, starts_with, within};
use crate::retention::{unlocked, DeletionBlock, ObjectLockState};
use crate::schema::{
    lemma_schema, BUCKETS, BUCKET_NAMES, BUCKET_USAGE, CLEANUP, CLOCK, CLOCK_WATERMARK, COUNTERS,
    MARKERS, MULTIPART_ORDER, NULL_VERSIONS, OBJECTS, OBJECT_LOCKS, PARTS, VERSIONS, VERSION_ORDER,
};
use crate::time::{duration_micros, Timestamp};
use crate::types::{
    bytes_equal, Bucket, BucketId, DeleteMarker, ObjectId, ObjectKey, ObjectMetadata,
    ObjectVersionRecord, UploadId, VersionId,
};

verus! {

impl CatalogView {
    /// What a row holds.
    pub open spec fn row(self, table: Seq<char>, key: Seq<u8>) -> Option<Seq<u8>> {
        lookup(self.rows, (table, key))
    }

    /// The catalog with a row written.
    pub open spec fn with_row(self, table: Seq<char>, key: Seq<u8>, value: Seq<u8>) -> CatalogView {
        CatalogView { rows: self.rows.insert((table, key), value), ..self }
    }

    /// The catalog without a row.
    pub open spec fn without_row(self, table: Seq<char>, key: Seq<u8>) -> CatalogView {
        CatalogView { rows: self.rows.remove((table, key)), ..self }
    }
}

/// Whether decoding a row's bytes can give `outcome`.
pub open spec fn decodes<T, D: FnOnce(Vec<u8>) -> Result<T, MetadataError>>(
    decode: D,
    row: Seq<u8>,
    outcome: Result<T, MetadataError>,
) -> bool {
    exists|bytes: Vec<u8>| bytes@ == row && #[trigger] call_ensures(decode, (bytes,), outcome)
}

/// Whether decoding what was found in a row, if anything, can give `outcome`.
pub open spec fn decodes_found<T, D: FnOnce(Vec<u8>) -> Result<T, MetadataError>>(
    decode: D,
    row: Option<Seq<u8>>,
    outcome: Result<Option<T>, MetadataError>,
) -> bool {
    match (row, outcome) {
        (None, Ok(None)) => true,
        (Some(bytes), Ok(Some(value))) => decodes(decode, bytes, Ok(value)),
        (Some(bytes), Err(error)) => decodes::<T, D>(decode, bytes, Err(error)),
        _ => false,
    }
}

/// Decodes what was found in a row, if anything.
pub fn decode_optional<T, D: FnOnce(Vec<u8>) -> Result<T, MetadataError>>(
    bytes: Option<Vec<u8>>,
    decode: D,
) -> (outcome: Result<Option<T>, MetadataError>)
    requires
        forall|row: Vec<u8>| call_requires(decode, (row,)),
    ensures
        decodes_found(decode, crate::catalog::bytes_view(bytes), outcome),
{
    match bytes {
        None => Ok(None),
        Some(row) => match decode(row) {
            Ok(value) => Ok(Some(value)),
            Err(error) => Err(error),
        },
    }
}

/// Reads and decodes one row of a snapshot.
pub fn read_encoded<T, D: FnOnce(Vec<u8>) -> Result<T, MetadataError>>(
    snapshot: &Snapshot,
    table: &'static str,
    key: &[u8],
    operation: &'static str,
    decode: D,
) -> (outcome: Result<Option<T>, MetadataError>)
    requires
        table@.len() > 0,
        forall|row: Vec<u8>| call_requires(decode, (row,)),
    ensures
        decodes_found(decode, snapshot@.row(table@, key@), outcome) || (outcome matches Err(
            error,
        ) && (error.during("open table"@) || error.during(operation@)) && snapshot.get_fails(
            table@,
            key@,
            "open table"@,
            operation@,
            error,
        )),
{
    match snapshot.get(table, key, rows("open table", operation)) {
        Ok(found) => decode_optional(found, decode),
        Err(error) => Err(error),
    }
}

/// Reads and decodes one row of the transaction.
pub fn read_tx<T, D: FnOnce(Vec<u8>) -> Result<T, MetadataError>>(
    tx: &Transaction,
    table: &'static str,
    key: &[u8],
    operation: &'static str,
    decode: D,
) -> (outcome: Result<Option<T>, MetadataError>)
    requires
        table@.len() > 0,
        forall|row: Vec<u8>| call_requires(decode, (row,)),
    ensures
        decodes_found(decode, tx@.row(table@, key@), outcome) || (outcome matches Err(error) && (
        error.during("open table"@) || error.during(operation@)) && tx.get_fails(
            table@,
            key@,
            "open table"@,
            operation@,
            error,
        )),
{
    match tx.get(table, key, rows("open table", operation)) {
        Ok(found) => decode_optional(found, decode),
        Err(error) => Err(error),
    }
}

/// Reads a bucket by its key.
pub fn read_bucket<D: FnOnce(Vec<u8>) -> Result<Bucket, MetadataError>>(
    tx: &Transaction,
    key: &[u8],
    decode: D,
) -> (outcome: Result<Option<Bucket>, MetadataError>)
    requires
        forall|row: Vec<u8>| call_requires(decode, (row,)),
    ensures
        decodes_found(decode, tx@.row(BUCKETS@, key@), outcome) || (outcome matches Err(error) && (
        error.during("open table"@) || error.during("read bucket"@)) && tx.get_fails(
            BUCKETS@,
            key@,
            "open table"@,
            "read bucket"@,
            error,
        )),
{
    proof {
        lemma_schema();
    }
    read_tx(tx, BUCKETS, key, "read bucket", decode)
}

/// The catalog with a bucket's row and its entry by name replaced.
pub open spec fn bucket_stored(
    before: CatalogView,
    key: Seq<u8>,
    name: Seq<char>,
    encoded: Seq<u8>,
) -> CatalogView {
    CatalogView {
        names: before.names.insert((BUCKET_NAMES@, name), encoded),
        ..before.with_row(BUCKETS@, key, encoded)
    }
}

/// Reads a bucket, applies a change to it, and stores it under its identifier
/// and under its name.
pub fn update_bucket_tx<
    D: FnOnce(Vec<u8>) -> Result<Bucket, MetadataError>,
    F: FnOnce(Bucket) -> Result<Bucket, MetadataError>,
    E: FnOnce(&Bucket) -> Result<Vec<u8>, MetadataError>,
>(tx: &mut Transaction, key: &[u8], decode: D, update: F, encode: E) -> (outcome: Result<
    Bucket,
    MetadataError,
>)
    requires
        forall|row: Vec<u8>| call_requires(decode, (row,)),
        forall|bucket: Bucket| call_requires(update, (bucket,)),
        forall|bucket: Bucket| call_requires(encode, (&bucket,)),
    ensures
        old(tx)@.row(BUCKETS@, key@) is None ==> outcome is Err,
        outcome matches Ok(bucket) ==> exists|found: Bucket, encoded: Vec<u8>|
            {
                &&& #[trigger] decodes(decode, old(tx)@.row(BUCKETS@, key@)->0, Ok(found))
                &&& call_ensures(update, (found,), Ok(bucket))
                &&& #[trigger] call_ensures(encode, (&bucket,), Ok(encoded))
                &&& final(tx)@ == bucket_stored(old(tx)@, key@, bucket.name@, encoded@)
            },
        outcome matches Err(error) ==> {
            ||| error == MetadataError::BucketNotFound && old(tx)@.row(BUCKETS@, key@) is None
                && final(tx)@ == old(tx)@
            ||| old(tx)@.row(BUCKETS@, key@) matches Some(row) && update_refuses(
                decode,
                update,
                encode,
                row,
                error,
            ) && final(tx)@ == old(tx)@
            ||| (error.during("open table"@) || error.during("read bucket"@)) && final(tx)@
                == old(tx)@ && old(tx).get_fails(
                BUCKETS@,
                key@,
                "open table"@,
                "read bucket"@,
                error,
            )
            ||| old(tx)@.row(BUCKETS@, key@) matches Some(row) && update_ready(
                decode,
                update,
                encode,
                row,
            ) && update_stops(*old(tx), key@, decode, update, encode, error) && {
                ||| error.during("open buckets"@) || error.during("update bucket"@)
                ||| error.during("open bucket names"@) || error.during("update bucket index"@)
            }
        },
{
    proof {
        lemma_schema();
    }
    let ghost before = tx@;
    let read = match read_bucket(tx, key, decode) {
        Ok(read) => read,
        Err(error) => {
            return Err(error);
        },
    };
    let found = match found_bucket(read) {
        Ok(found) => found,
        Err(error) => {
            return Err(error);
        },
    };
    let bucket = match update(found) {
        Ok(bucket) => bucket,
        Err(error) => {
            return Err(error);
        },
    };
    let encoded: Vec<u8> = match encode(&bucket) {
        Ok(encoded) => encoded,
        Err(error) => {
            return Err(error);
        },
    };
    assert(update_ready(decode, update, encode, before.row(BUCKETS@, key@)->0));
    match tx.insert(BUCKETS, key, encoded.as_slice(), rows("open buckets", "update bucket")) {
        Ok(()) => {},
        Err(error) => {
            return Err(error);
        },
    }
    let name_index = rows("open bucket names", "update bucket index");
    match tx.insert_name(BUCKET_NAMES, bucket.name.as_str(), encoded.as_slice(), name_index) {
        Ok(()) => {},
        Err(error) => {
            return Err(error);
        },
    }
    assert(tx@ =~= bucket_stored(before, key@, bucket.name@, encoded@));
    Ok(bucket)
}

/// Whether the storage engine can stop the change of a bucket like this: at the
/// row under its identifier, or, with that written, at its entry by name.
pub open spec fn update_stops<
    D: FnOnce(Vec<u8>) -> Result<Bucket, MetadataError>,
    F: FnOnce(Bucket) -> Result<Bucket, MetadataError>,
    E: FnOnce(&Bucket) -> Result<Vec<u8>, MetadataError>,
>(
    tx: Transaction,
    key: Seq<u8>,
    decode: D,
    update: F,
    encode: E,
    error: MetadataError,
) -> bool {
    exists|found: Bucket, bucket: Bucket, encoded: Vec<u8>|
        {
            &&& #[trigger] decodes(decode, tx@.row(BUCKETS@, key)->0, Ok(found))
            &&& #[trigger] call_ensures(update, (found,), Ok(bucket))
            &&& #[trigger] call_ensures(encode, (&bucket,), Ok(encoded))
            &&& {
                ||| tx.insert_fails(
                    BUCKETS@,
                    key,
                    encoded@,
                    "open buckets"@,
                    "update bucket"@,
                    error,
                )
                ||| exists|then: Transaction|
                    then@ == tx@.with_row(BUCKETS@, key, encoded@)
                        && #[trigger] then.insert_name_fails(
                        BUCKET_NAMES@,
                        bucket.name@,
                        encoded@,
                        "open bucket names"@,
                        "update bucket index"@,
                        error,
                    )
            }
        }
}

/// Returns the bucket that was found; one that is absent cannot be changed.
pub fn found_bucket(found: Option<Bucket>) -> (bucket: Result<Bucket, MetadataError>)
    ensures
        bucket == match found {
            Some(bucket) => Ok(bucket),
            None => Err(MetadataError::BucketNotFound),
        },
{
    match found {
        Some(bucket) => Ok(bucket),
        None => Err(MetadataError::BucketNotFound),
    }
}

/// Whether the bucket in `row` decodes, its change is accepted, and the changed
/// bucket encodes.
pub open spec fn update_ready<
    D: FnOnce(Vec<u8>) -> Result<Bucket, MetadataError>,
    F: FnOnce(Bucket) -> Result<Bucket, MetadataError>,
    E: FnOnce(&Bucket) -> Result<Vec<u8>, MetadataError>,
>(decode: D, update: F, encode: E, row: Seq<u8>) -> bool {
    exists|found: Bucket, bucket: Bucket, encoded: Vec<u8>|
        {
            &&& #[trigger] decodes(decode, row, Ok(found))
            &&& #[trigger] call_ensures(update, (found,), Ok(bucket))
            &&& #[trigger] call_ensures(encode, (&bucket,), Ok(encoded))
        }
}

/// Whether the bucket in `row` does not decode, or its change is refused, or the
/// changed bucket does not encode, with this error.
pub open spec fn update_refuses<
    D: FnOnce(Vec<u8>) -> Result<Bucket, MetadataError>,
    F: FnOnce(Bucket) -> Result<Bucket, MetadataError>,
    E: FnOnce(&Bucket) -> Result<Vec<u8>, MetadataError>,
>(decode: D, update: F, encode: E, row: Seq<u8>, error: MetadataError) -> bool {
    ||| decodes::<Bucket, D>(decode, row, Err(error))
    ||| exists|found: Bucket| #[trigger]
        decodes(decode, row, Ok(found)) && call_ensures(update, (found,), Err(error))
    ||| exists|found: Bucket, bucket: Bucket|
        {
            &&& #[trigger] decodes(decode, row, Ok(found))
            &&& #[trigger] call_ensures(update, (found,), Ok(bucket))
            &&& call_ensures(encode, (&bucket,), Err(error))
        }
}

/// Returns what was found, or what stands in for a row that is absent.
pub fn found_or_fallback<T>(found: Option<T>, fallback: T) -> (value: T)
    ensures
        value == match found {
            Some(value) => value,
            None => fallback,
        },
{
    match found {
        Some(value) => value,
        None => fallback,
    }
}

/// Reads what a bucket holds in total; a bucket without an entry holds what
/// `empty` says.
pub fn read_bucket_usage<T, D: FnOnce(Vec<u8>) -> Result<T, MetadataError>>(
    tx: &Transaction,
    key: &[u8],
    empty: T,
    decode: D,
) -> (outcome: Result<T, MetadataError>)
    requires
        forall|row: Vec<u8>| call_requires(decode, (row,)),
    ensures
        found_or(decode, tx@.row(BUCKET_USAGE@, key@), empty, outcome) || (outcome matches Err(error)
            && (error.during("open table"@) || error.during("read bucket usage"@))
            && tx.get_fails(BUCKET_USAGE@, key@, "open table"@, "read bucket usage"@, error)),
{
    proof {
        lemma_schema();
    }
    match read_tx(tx, BUCKET_USAGE, key, "read bucket usage", decode) {
        Ok(found) => Ok(found_or_fallback(found, empty)),
        Err(error) => Err(error),
    }
}

/// Whether decoding a row, or falling back where there is none, can give
/// `outcome`.
pub open spec fn found_or<T, D: FnOnce(Vec<u8>) -> Result<T, MetadataError>>(
    decode: D,
    row: Option<Seq<u8>>,
    fallback: T,
    outcome: Result<T, MetadataError>,
) -> bool {
    match row {
        None => outcome == Ok::<T, MetadataError>(fallback),
        Some(bytes) => decodes(decode, bytes, outcome),
    }
}

/// Stores what a bucket holds in total.
pub fn write_bucket_usage<U, E: FnOnce(&U) -> Result<Vec<u8>, MetadataError>>(
    tx: &mut Transaction,
    key: &[u8],
    usage: &U,
    encode: E,
) -> (outcome: Result<(), MetadataError>)
    requires
        call_requires(encode, (usage,)),
    ensures
        match outcome {
            Ok(()) => exists|encoded: Vec<u8>| #[trigger]
                call_ensures(encode, (usage,), Ok(encoded)) && final(tx)@ == old(tx)@.with_row(
                    BUCKET_USAGE@,
                    key@,
                    encoded@,
                ),
            Err(error) => {
                ||| call_ensures(encode, (usage,), Err(error)) && final(tx)@ == old(tx)@
                ||| encodes(encode, usage) && (error.during("open bucket usage"@) || error.during(
                    "write bucket usage"@,
                )) && exists|encoded: Vec<u8>| #[trigger]
                    call_ensures(encode, (usage,), Ok(encoded)) && old(tx).insert_fails(
                        BUCKET_USAGE@,
                        key@,
                        encoded@,
                        "open bucket usage"@,
                        "write bucket usage"@,
                        error,
                    )
            },
        },
{
    proof {
        lemma_schema();
    }
    let encoded: Vec<u8> = match encode(usage) {
        Ok(encoded) => encoded,
        Err(error) => {
            return Err(error);
        },
    };
    tx.insert(
        BUCKET_USAGE,
        key,
        encoded.as_slice(),
        rows("open bucket usage", "write bucket usage"),
    )
}

/// Whether a value can encode.
pub open spec fn encodes<T, E: FnOnce(&T) -> Result<Vec<u8>, MetadataError>>(
    encode: E,
    value: &T,
) -> bool {
    exists|encoded: Vec<u8>| #[trigger] call_ensures(encode, (value,), Ok(encoded))
}

/// The catalog with a version recorded and put in its place in the order.
pub open spec fn version_inserted(
    before: CatalogView,
    id: VersionId,
    order_key: Seq<u8>,
    encoded: Seq<u8>,
) -> CatalogView {
    before.with_row(VERSIONS@, id.0@, encoded).with_row(VERSION_ORDER@, order_key, id.0@)
}

/// The catalog without a version and its place in the order.
pub open spec fn version_removed(
    before: CatalogView,
    id: VersionId,
    order_key: Seq<u8>,
) -> CatalogView {
    before.without_row(VERSIONS@, id.0@).without_row(VERSION_ORDER@, order_key)
}

/// Whether the storage engine can stop the insertion of a version like this: at
/// its record, or, with that written, at its place in the order.
pub open spec fn insertion_stops(
    tx: Transaction,
    id: VersionId,
    order_key: Seq<u8>,
    encoded: Seq<u8>,
    error: MetadataError,
) -> bool {
    ||| tx.insert_fails(VERSIONS@, id.0@, encoded, "open versions"@, "insert version"@, error)
    ||| exists|then: Transaction|
        then@ == tx@.with_row(VERSIONS@, id.0@, encoded) && #[trigger] then.insert_fails(
            VERSION_ORDER@,
            order_key,
            id.0@,
            "open version order"@,
            "index version"@,
            error,
        )
}

/// Whether the storage engine can stop the removal of a version like this.
pub open spec fn removal_stops(
    tx: Transaction,
    id: VersionId,
    order_key: Seq<u8>,
    error: MetadataError,
) -> bool {
    ||| tx.remove_fails(VERSIONS@, id.0@, "open versions"@, "remove version"@, error)
    ||| exists|then: Transaction|
        then@ == tx@.without_row(VERSIONS@, id.0@) && #[trigger] then.remove_fails(
            VERSION_ORDER@,
            order_key,
            "open version order"@,
            "remove version index"@,
            error,
        )
}

/// Records a version and puts it in its place in the order.
pub fn insert_version<E: FnOnce(&ObjectVersionRecord) -> Result<Vec<u8>, MetadataError>>(
    tx: &mut Transaction,
    record: &ObjectVersionRecord,
    order_key: &[u8],
    encode: E,
) -> (outcome: Result<(), MetadataError>)
    requires
        call_requires(encode, (record,)),
    ensures
        match outcome {
            Ok(()) => exists|encoded: Vec<u8>| #[trigger]
                call_ensures(encode, (record,), Ok(encoded)) && final(tx)@ == version_inserted(
                    old(tx)@,
                    record.id(),
                    order_key@,
                    encoded@,
                ),
            Err(error) => {
                ||| call_ensures(encode, (record,), Err(error)) && final(tx)@ == old(tx)@
                ||| {
                    &&& encodes(encode, record)
                    &&& error.during("open versions"@) || error.during("insert version"@)
                        || error.during("open version order"@) || error.during("index version"@)
                    &&& exists|encoded: Vec<u8>| #[trigger]
                        call_ensures(encode, (record,), Ok(encoded)) && insertion_stops(
                            *old(tx),
                            record.id(),
                            order_key@,
                            encoded@,
                            error,
                        )
                }
            },
        },
{
    proof {
        lemma_schema();
    }
    let encoded: Vec<u8> = match encode(record) {
        Ok(encoded) => encoded,
        Err(error) => {
            return Err(error);
        },
    };
    let id: VersionId = record.version_id();
    let versions = rows("open versions", "insert version");
    match tx.insert(VERSIONS, id.0.as_slice(), encoded.as_slice(), versions) {
        Ok(()) => {},
        Err(error) => {
            return Err(error);
        },
    }
    let order = rows("open version order", "index version");
    tx.insert(VERSION_ORDER, order_key, id.0.as_slice(), order)
}

/// Drops a version and its place in the order.
pub fn remove_version(tx: &mut Transaction, record: &ObjectVersionRecord, order_key: &[u8]) -> (
outcome: Result<(), MetadataError>)
    ensures
        outcome is Ok ==> final(tx)@ == version_removed(old(tx)@, record.id(), order_key@),
        outcome matches Err(error) ==> {
            &&& removal_stops(*old(tx), record.id(), order_key@, error)
            &&& error.during("open versions"@) || error.during("remove version"@) || error.during(
                "open version order"@,
            ) || error.during("remove version index"@)
        },
{
    proof {
        lemma_schema();
    }
    let id: VersionId = record.version_id();
    match tx.remove(VERSIONS, id.0.as_slice(), rows("open versions", "remove version")) {
        Ok(_) => {},
        Err(error) => {
            return Err(error);
        },
    }
    let order = rows("open version order", "remove version index");
    match tx.remove(VERSION_ORDER, order_key, order) {
        Ok(_) => Ok(()),
        Err(error) => Err(error),
    }
}

/// Takes an object's null version out of the index and returns its record.
///
/// An index entry without a record is a contradiction, and is reported as one.
/// The entry is gone from then on, whatever reading the record comes to.
pub fn take_null<D: FnOnce(Vec<u8>) -> Result<ObjectVersionRecord, MetadataError>>(
    tx: &mut Transaction,
    key: &[u8],
    decode: D,
) -> (outcome: Result<Option<ObjectVersionRecord>, MetadataError>)
    requires
        forall|row: Vec<u8>| call_requires(decode, (row,)),
    ensures
        ({
            let index = old(tx)@.row(NULL_VERSIONS@, key@);
            let record = old(tx)@.row(VERSIONS@, index->0);
            match outcome {
                Ok(None) => index is None && final(tx)@ == old(tx)@.without_row(
                    NULL_VERSIONS@,
                    key@,
                ),
                Ok(Some(taken)) => {
                    &&& index is Some
                    &&& record is Some
                    &&& decodes(decode, record->0, Ok(taken))
                    &&& final(tx)@ == old(tx)@.without_row(NULL_VERSIONS@, key@)
                },
                Err(error) => {
                    ||| (error.during("open null versions"@) || error.during("remove null index"@))
                        && old(tx).remove_fails(
                        NULL_VERSIONS@,
                        key@,
                        "open null versions"@,
                        "remove null index"@,
                        error,
                    )
                    ||| index is Some && final(tx)@ == old(tx)@.without_row(NULL_VERSIONS@, key@)
                        && {
                        ||| record is None && contradicts(error)
                        ||| record matches Some(row) && decodes::<ObjectVersionRecord, D>(
                            decode,
                            row,
                            Err(error),
                        )
                        ||| (error.during("open table"@) || error.during("read null version"@))
                            && final(tx).get_fails(
                            VERSIONS@,
                            index->0,
                            "open table"@,
                            "read null version"@,
                            error,
                        )
                    }
                },
            }
        }),
{
    proof {
        lemma_schema();
    }
    let index = rows("open null versions", "remove null index");
    let id: Vec<u8> = match tx.remove(NULL_VERSIONS, key, index) {
        Ok(Some(id)) => id,
        Ok(None) => {
            return Ok(None);
        },
        Err(error) => {
            return Err(error);
        },
    };
    assert(tx@.row(VERSIONS@, id@) == old(tx)@.row(VERSIONS@, id@));
    match read_tx(tx, VERSIONS, id.as_slice(), "read null version", decode) {
        Ok(found) => match indexed_null(found) {
            Ok(record) => Ok(Some(record)),
            Err(error) => Err(error),
        },
        Err(error) => Err(error),
    }
}

/// The error for a null-version index entry that points to no record.
pub open spec fn contradicts(error: MetadataError) -> bool {
    error matches MetadataError::Database { operation, reason } && operation@
        == "read null version"@ && reason@ == "inconsistent index"@
}

/// The record that a null-version index entry points to: an entry without one
/// contradicts the catalog.
pub fn indexed_null(found: Option<ObjectVersionRecord>) -> (outcome: Result<
    ObjectVersionRecord,
    MetadataError,
>)
    ensures
        match found {
            Some(record) => outcome == Ok::<ObjectVersionRecord, MetadataError>(record),
            None => outcome matches Err(error) && contradicts(error),
        },
{
    match found {
        Some(record) => Ok(record),
        None => Err(backend("read null version", "inconsistent index".to_string())),
    }
}

/// Enters a version as its object's null version.
pub fn set_null(tx: &mut Transaction, key: &[u8], id: VersionId) -> (outcome: Result<
    (),
    MetadataError,
>)
    ensures
        outcome is Ok ==> final(tx)@ == old(tx)@.with_row(NULL_VERSIONS@, key@, id.0@),
        outcome matches Err(error) ==> (error.during("open null versions"@) || error.during(
            "index null version"@,
        )) && old(tx).insert_fails(
            NULL_VERSIONS@,
            key@,
            id.0@,
            "open null versions"@,
            "index null version"@,
            error,
        ),
{
    proof {
        lemma_schema();
    }
    tx.insert(
        NULL_VERSIONS,
        key,
        id.0.as_slice(),
        rows("open null versions", "index null version"),
    )
}

/// The catalog with an object's null version cleared, if it is this one.
pub open spec fn null_cleared(before: CatalogView, key: Seq<u8>, id: VersionId) -> CatalogView {
    if before.row(NULL_VERSIONS@, key) == Some(id.0@) {
        before.without_row(NULL_VERSIONS@, key)
    } else {
        before
    }
}

/// Clears an object's null version, if it is this one.
pub fn clear_null(tx: &mut Transaction, key: &[u8], id: VersionId) -> (outcome: Result<
    (),
    MetadataError,
>)
    ensures
        outcome is Ok ==> final(tx)@ == null_cleared(old(tx)@, key@, id),
        outcome matches Err(error) ==> {
            ||| (error.during("open null versions"@) || error.during("read null version"@))
                && final(tx)@ == old(tx)@ && old(tx).get_fails(
                NULL_VERSIONS@,
                key@,
                "open null versions"@,
                "read null version"@,
                error,
            )
            ||| (error.during("open null versions"@) || error.during("remove null version"@))
                && old(tx)@.row(NULL_VERSIONS@, key@) == Some(id.0@) && old(tx).remove_fails(
                NULL_VERSIONS@,
                key@,
                "open null versions"@,
                "remove null version"@,
                error,
            )
        },
{
    proof {
        lemma_schema();
    }
    let found = match tx.get(NULL_VERSIONS, key, rows("open null versions", "read null version")) {
        Ok(found) => found,
        Err(error) => {
            return Err(error);
        },
    };
    if is_null_version(&found, id) {
        match tx.remove(NULL_VERSIONS, key, rows("open null versions", "remove null version")) {
            Ok(_) => {},
            Err(error) => {
                return Err(error);
            },
        }
    }
    Ok(())
}

/// Returns whether a null-version index entry, if there is one, names this
/// version.
pub fn is_null_version(found: &Option<Vec<u8>>, id: VersionId) -> (named: bool)
    ensures
        named == (crate::catalog::bytes_view(*found) == Some(id.0@)),
{
    match found {
        Some(current) => slices_equal(current.as_slice(), id.0.as_slice()),
        None => false,
    }
}

/// Compares two byte strings.
fn slices_equal(left: &[u8], right: &[u8]) -> (equal: bool)
    ensures
        equal == (left@ == right@),
{
    if left.len() != right.len() {
        return false;
    }
    let mut i: usize = 0;
    while i < left.len()
        invariant
            i <= left@.len(),
            left@.len() == right@.len(),
            forall|j: int| 0 <= j < i ==> left@[j] == right@[j],
        decreases left@.len() - i,
    {
        if left[i] != right[i] {
            return false;
        }
        i += 1;
    }
    assert(left@ =~= right@);
    true
}

/// Whether `key` is the least key of a table that begins with `prefix`.
pub open spec fn least_with_prefix(
    catalog: CatalogView,
    table: Seq<char>,
    prefix: Seq<u8>,
    key: Seq<u8>,
) -> bool {
    &&& catalog.row(table, key) is Some
    &&& starts_with(key, prefix)
    &&& forall|other: Seq<u8>|
        #![trigger catalog.row(table, other)]
        catalog.row(table, other) is Some && starts_with(other, prefix) ==> !key_before(other, key)
}

/// Whether a table has no key that begins with `prefix`.
pub open spec fn none_with_prefix(
    catalog: CatalogView,
    table: Seq<char>,
    prefix: Seq<u8>,
) -> bool {
    forall|other: Seq<u8>|
        #![trigger catalog.row(table, other)]
        catalog.row(table, other) is Some ==> !starts_with(other, prefix)
}

/// Whether a range that starts with a prefix holds the keys that begin with it,
/// and no others.
pub open spec fn range_of_prefix(prefix: Seq<u8>, end: Option<Seq<u8>>) -> bool {
    forall|key: Seq<u8>| #[trigger] within(key, prefix, end) <==> starts_with(key, prefix)
}

/// What the storage engine can answer to the first step of a scan over exactly
/// the keys that begin with a prefix.
pub open spec fn prefix_scan_gives(
    tx: Transaction,
    table: Seq<char>,
    prefix: Seq<u8>,
    first: Result<Option<(Vec<u8>, Vec<u8>)>, Fault>,
) -> bool {
    exists|end: Option<Seq<u8>>| #[trigger]
        tx.first_gives(table, prefix, end, first) && range_of_prefix(prefix, end)
}

/// Finds the first row whose key begins with `prefix`.
fn first_with_prefix(
    tx: &Transaction,
    table: &'static str,
    prefix: &[u8],
) -> (outcome: Result<Option<(Vec<u8>, Vec<u8>)>, Fault>)
    requires
        table@.len() > 0,
    ensures
        match outcome {
            Ok(None) => none_with_prefix(tx@, table@, prefix@),
            Ok(Some((key, value))) => least_with_prefix(tx@, table@, prefix@, key@) && tx@.row(
                table@,
                key@,
            ) == Some(value@),
            Err(_) => true,
        },
        prefix_scan_gives(*tx, table@, prefix@, outcome),
{
    let end = prefix_successor(prefix);
    let bound: Option<&[u8]> = match &end {
        Some(bytes) => Some(bytes.as_slice()),
        None => None,
    };
    let outcome = tx.first(table, prefix, bound);
    proof {
        let limit = crate::catalog::bound_view(bound);
        assert forall|key: Seq<u8>|
            #![trigger tx@.row(table@, key)]
            #![trigger row_within(tx@.rows, table@, prefix@, limit, key)]
            (tx@.row(table@, key) is Some && starts_with(key, prefix@)) <==> row_within(
                tx@.rows,
                table@,
                prefix@,
                limit,
                key,
            ) by {
            assert(within(key, prefix@, limit) <==> starts_with(key, prefix@));
        }
        assert(range_of_prefix(prefix@, limit));
        assert(tx.first_gives(table@, prefix@, limit, outcome));
    }
    outcome
}

/// Returns the version that the first entry of an order names; an order without
/// entries names none.
pub fn ordered_version(first: Option<(Vec<u8>, Vec<u8>)>) -> (id: Option<Vec<u8>>)
    ensures
        id == match first {
            Some((_, id)) => Some(id),
            None => None,
        },
{
    match first {
        Some((_, id)) => Some(id),
        None => None,
    }
}

/// Returns the newest version of an object: the first in the order of those
/// under its prefix.
pub fn latest_version<D: FnOnce(Vec<u8>) -> Result<ObjectVersionRecord, MetadataError>>(
    tx: &Transaction,
    prefix: &[u8],
    decode: D,
) -> (outcome: Result<Option<ObjectVersionRecord>, MetadataError>)
    requires
        forall|row: Vec<u8>| call_requires(decode, (row,)),
    ensures
        ({
            ||| outcome == Ok::<Option<ObjectVersionRecord>, MetadataError>(None)
                && none_with_prefix(tx@, VERSION_ORDER@, prefix@)
            ||| exists|key: Seq<u8>|
                {
                    &&& #[trigger] least_with_prefix(tx@, VERSION_ORDER@, prefix@, key)
                    &&& decodes_found(
                        decode,
                        tx@.row(VERSIONS@, tx@.row(VERSION_ORDER@, key)->0),
                        outcome,
                    )
                }
            ||| outcome matches Err(error) && {
                ||| {
                    &&& error.during("open version order"@) || error.during("range versions"@)
                        || error.during("read latest version"@)
                    &&& exists|fault: Fault| #[trigger]
                        prefix_scan_gives(*tx, VERSION_ORDER@, prefix@, Err(fault))
                            && reports_fault(
                            "open version order"@,
                            "range versions"@,
                            "read latest version"@,
                            fault,
                            error,
                        )
                }
                ||| {
                    &&& error.during("open table"@) || error.during("resolve latest version"@)
                    &&& exists|key: Seq<u8>| #[trigger]
                        least_with_prefix(tx@, VERSION_ORDER@, prefix@, key) && tx.get_fails(
                            VERSIONS@,
                            tx@.row(VERSION_ORDER@, key)->0,
                            "open table"@,
                            "resolve latest version"@,
                            error,
                        )
                }
            }
        }),
{
    proof {
        lemma_schema();
    }
    let order = scan("open version order", "range versions", "read latest version");
    match first_with_prefix(tx, VERSION_ORDER, prefix) {
        Ok(first) => {
            proof {
                assert(first matches Some((key, _)) ==> least_with_prefix(
                    tx@,
                    VERSION_ORDER@,
                    prefix@,
                    key@,
                ));
            }
            match ordered_version(first) {
                Some(id) => read_tx(tx, VERSIONS, id.as_slice(), "resolve latest version", decode),
                None => Ok(None),
            }
        },
        Err(fault) => Err(order.report(fault)),
    }
}

/// The table in which a record of this kind is current.
pub open spec fn current_table(record: ObjectVersionRecord) -> Seq<char> {
    match record {
        ObjectVersionRecord::Object { .. } => OBJECTS@,
        ObjectVersionRecord::DeleteMarker { .. } => MARKERS@,
    }
}

/// Whether encoding what a record publishes can give `outcome`: the metadata of
/// an object, the marker of a deletion.
pub open spec fn publishes<
    O: FnOnce(&ObjectMetadata) -> Result<Vec<u8>, MetadataError>,
    M: FnOnce(&DeleteMarker) -> Result<Vec<u8>, MetadataError>,
>(
    record: ObjectVersionRecord,
    encode_object: O,
    encode_marker: M,
    outcome: Result<Vec<u8>, MetadataError>,
) -> bool {
    match record {
        ObjectVersionRecord::Object { metadata } => call_ensures(
            encode_object,
            (&metadata,),
            outcome,
        ),
        ObjectVersionRecord::DeleteMarker { marker } => call_ensures(
            encode_marker,
            (&marker,),
            outcome,
        ),
    }
}

/// Makes a version the current one of its key: an object among the objects, a
/// delete marker among the markers.
pub fn publish_current<
    O: FnOnce(&ObjectMetadata) -> Result<Vec<u8>, MetadataError>,
    M: FnOnce(&DeleteMarker) -> Result<Vec<u8>, MetadataError>,
>(
    tx: &mut Transaction,
    key: &[u8],
    record: &ObjectVersionRecord,
    encode_object: O,
    encode_marker: M,
) -> (outcome: Result<(), MetadataError>)
    requires
        forall|metadata: ObjectMetadata| call_requires(encode_object, (&metadata,)),
        forall|marker: DeleteMarker| call_requires(encode_marker, (&marker,)),
    ensures
        match outcome {
            Ok(()) => exists|encoded: Vec<u8>|
                {
                    &&& #[trigger] publishes(*record, encode_object, encode_marker, Ok(encoded))
                    &&& final(tx)@ == old(tx)@.with_row(current_table(*record), key@, encoded@)
                },
            Err(error) => {
                ||| publishes(*record, encode_object, encode_marker, Err(error)) && final(tx)@
                    == old(tx)@
                ||| match *record {
                    ObjectVersionRecord::Object { .. } => (error.during("open objects"@)
                        || error.during("publish current"@)) && exists|encoded: Vec<u8>|
                        {
                            &&& #[trigger] publishes(
                                *record,
                                encode_object,
                                encode_marker,
                                Ok(encoded),
                            )
                            &&& old(tx).insert_fails(
                                OBJECTS@,
                                key@,
                                encoded@,
                                "open objects"@,
                                "publish current"@,
                                error,
                            )
                        },
                    ObjectVersionRecord::DeleteMarker { .. } => (error.during("open markers"@)
                        || error.during("publish marker"@)) && exists|encoded: Vec<u8>|
                        {
                            &&& #[trigger] publishes(
                                *record,
                                encode_object,
                                encode_marker,
                                Ok(encoded),
                            )
                            &&& old(tx).insert_fails(
                                MARKERS@,
                                key@,
                                encoded@,
                                "open markers"@,
                                "publish marker"@,
                                error,
                            )
                        },
                }
            },
        },
{
    proof {
        lemma_schema();
    }
    match record {
        ObjectVersionRecord::Object { metadata } => {
            let encoded: Vec<u8> = match encode_object(metadata) {
                Ok(encoded) => encoded,
                Err(error) => {
                    return Err(error);
                },
            };
            assert(publishes(*record, encode_object, encode_marker, Ok(encoded)));
            tx.insert(OBJECTS, key, encoded.as_slice(), rows("open objects", "publish current"))
        },
        ObjectVersionRecord::DeleteMarker { marker } => {
            let encoded: Vec<u8> = match encode_marker(marker) {
                Ok(encoded) => encoded,
                Err(error) => {
                    return Err(error);
                },
            };
            assert(publishes(*record, encode_object, encode_marker, Ok(encoded)));
            tx.insert(MARKERS, key, encoded.as_slice(), rows("open markers", "publish marker"))
        },
    }
}

/// The catalog with nothing current under a key.
pub open spec fn current_removed(before: CatalogView, key: Seq<u8>) -> CatalogView {
    before.without_row(OBJECTS@, key).without_row(MARKERS@, key)
}

/// Leaves nothing current under a key, neither an object nor a marker.
pub fn remove_current(tx: &mut Transaction, key: &[u8]) -> (outcome: Result<(), MetadataError>)
    ensures
        outcome is Ok ==> final(tx)@ == current_removed(old(tx)@, key@),
        outcome matches Err(error) ==> {
            ||| (error.during("open objects"@) || error.during("remove current"@))
                && old(tx).remove_fails(
                OBJECTS@,
                key@,
                "open objects"@,
                "remove current"@,
                error,
            )
            ||| (error.during("open markers"@) || error.during("remove marker"@)) && exists|
                then: Transaction,
            |
                then@ == old(tx)@.without_row(OBJECTS@, key@) && #[trigger] then.remove_fails(
                    MARKERS@,
                    key@,
                    "open markers"@,
                    "remove marker"@,
                    error,
                )
        },
{
    proof {
        lemma_schema();
    }
    match tx.remove(OBJECTS, key, rows("open objects", "remove current")) {
        Ok(_) => {},
        Err(error) => {
            return Err(error);
        },
    }
    match tx.remove(MARKERS, key, rows("open markers", "remove marker")) {
        Ok(_) => Ok(()),
        Err(error) => Err(error),
    }
}

/// Whether the two rows of a key can give this current version: the object's
/// where there is an object, else the marker's.
pub open spec fn current_from<
    O: FnOnce(Vec<u8>) -> Result<ObjectMetadata, MetadataError>,
    M: FnOnce(Vec<u8>) -> Result<DeleteMarker, MetadataError>,
>(
    object: Option<Seq<u8>>,
    marker: Option<Seq<u8>>,
    decode_object: O,
    decode_marker: M,
    outcome: Result<Option<VersionId>, MetadataError>,
) -> bool {
    match (object, marker) {
        (Some(row), _) => match outcome {
            Ok(Some(id)) => exists|metadata: ObjectMetadata| #[trigger]
                decodes(decode_object, row, Ok(metadata)) && id == metadata.version_id,
            Ok(None) => false,
            Err(error) => decodes::<ObjectMetadata, O>(decode_object, row, Err(error)),
        },
        (None, Some(row)) => match outcome {
            Ok(Some(id)) => exists|found: DeleteMarker| #[trigger]
                decodes(decode_marker, row, Ok(found)) && id == found.version_id,
            Ok(None) => false,
            Err(error) => decodes::<DeleteMarker, M>(decode_marker, row, Err(error)),
        },
        (None, None) => outcome == Ok::<Option<VersionId>, MetadataError>(None),
    }
}

/// Returns the version that is current, given what the two tables hold: an object
/// goes before a marker, and without either no version is.
pub fn current_of(object: Option<ObjectMetadata>, marker: Option<DeleteMarker>) -> (current: Option<
    VersionId,
>)
    ensures
        current == match (object, marker) {
            (Some(metadata), _) => Some(metadata.version_id),
            (None, Some(marker)) => Some(marker.version_id),
            (None, None) => None,
        },
{
    match (object, marker) {
        (Some(metadata), _) => Some(metadata.version_id),
        (None, Some(marker)) => Some(marker.version_id),
        (None, None) => None,
    }
}

/// Returns the version that is current under a key, object or marker.
pub fn current_version<
    O: FnOnce(Vec<u8>) -> Result<ObjectMetadata, MetadataError>,
    M: FnOnce(Vec<u8>) -> Result<DeleteMarker, MetadataError>,
>(tx: &Transaction, key: &[u8], decode_object: O, decode_marker: M) -> (outcome: Result<
    Option<VersionId>,
    MetadataError,
>)
    requires
        forall|row: Vec<u8>| call_requires(decode_object, (row,)),
        forall|row: Vec<u8>| call_requires(decode_marker, (row,)),
    ensures
        current_from(
            tx@.row(OBJECTS@, key@),
            tx@.row(MARKERS@, key@),
            decode_object,
            decode_marker,
            outcome,
        ) || (outcome matches Err(error) && {
            ||| (error.during("open table"@) || error.during("read current"@)) && tx.get_fails(
                OBJECTS@,
                key@,
                "open table"@,
                "read current"@,
                error,
            )
            ||| tx@.row(OBJECTS@, key@) is None && (error.during("open table"@) || error.during(
                "read marker"@,
            )) && tx.get_fails(MARKERS@, key@, "open table"@, "read marker"@, error)
        }),
{
    proof {
        lemma_schema();
    }
    match read_tx(tx, OBJECTS, key, "read current", decode_object) {
        Ok(Some(metadata)) => {
            return Ok(current_of(Some(metadata), None));
        },
        Ok(None) => {},
        Err(error) => {
            return Err(error);
        },
    }
    match read_tx(tx, MARKERS, key, "read marker", decode_marker) {
        Ok(marker) => Ok(current_of(None, marker)),
        Err(error) => Err(error),
    }
}

/// Returns the version that is current under a key in a snapshot.
pub fn current_version_read<
    O: FnOnce(Vec<u8>) -> Result<ObjectMetadata, MetadataError>,
    M: FnOnce(Vec<u8>) -> Result<DeleteMarker, MetadataError>,
>(snapshot: &Snapshot, key: &[u8], decode_object: O, decode_marker: M) -> (outcome: Result<
    Option<VersionId>,
    MetadataError,
>)
    requires
        forall|row: Vec<u8>| call_requires(decode_object, (row,)),
        forall|row: Vec<u8>| call_requires(decode_marker, (row,)),
    ensures
        current_from(
            snapshot@.row(OBJECTS@, key@),
            snapshot@.row(MARKERS@, key@),
            decode_object,
            decode_marker,
            outcome,
        ) || (outcome matches Err(error) && {
            ||| (error.during("open objects"@) || error.during("read current"@))
                && snapshot.get_fails(
                OBJECTS@,
                key@,
                "open objects"@,
                "read current"@,
                error,
            )
            ||| snapshot@.row(OBJECTS@, key@) is None && (error.during("open markers"@)
                || error.during("read marker"@)) && snapshot.get_fails(
                MARKERS@,
                key@,
                "open markers"@,
                "read marker"@,
                error,
            )
        }),
{
    proof {
        lemma_schema();
    }
    let object = match snapshot.get(OBJECTS, key, rows("open objects", "read current")) {
        Ok(object) => object,
        Err(error) => {
            return Err(error);
        },
    };
    match decode_optional(object, decode_object) {
        Ok(Some(metadata)) => {
            return Ok(current_of(Some(metadata), None));
        },
        Ok(None) => {},
        Err(error) => {
            return Err(error);
        },
    }
    let marker = match snapshot.get(MARKERS, key, rows("open markers", "read marker")) {
        Ok(marker) => marker,
        Err(error) => {
            return Err(error);
        },
    };
    match decode_optional(marker, decode_marker) {
        Ok(marker) => Ok(current_of(None, marker)),
        Err(error) => Err(error),
    }
}

/// Whether `keys` are a table's keys under a prefix, all of them, in order.
pub open spec fn keys_with_prefix(
    catalog: CatalogView,
    table: Seq<char>,
    prefix: Seq<u8>,
    keys: Seq<Seq<u8>>,
) -> bool {
    &&& forall|i: int|
        0 <= i < keys.len() ==> catalog.row(table, #[trigger] keys[i]) is Some && starts_with(
            keys[i],
            prefix,
        )
    &&& forall|i: int, j: int|
        0 <= i < j < keys.len() ==> key_before(#[trigger] keys[i], #[trigger] keys[j])
    &&& forall|key: Seq<u8>|
        #![trigger catalog.row(table, key)]
        catalog.row(table, key) is Some && starts_with(key, prefix) ==> keys.contains(key)
}

/// Whether `keys` are a table's first keys under a prefix, in order: every other
/// key under the prefix comes after all of them.
pub open spec fn first_keys_with_prefix(
    catalog: CatalogView,
    table: Seq<char>,
    prefix: Seq<u8>,
    keys: Seq<Seq<u8>>,
) -> bool {
    &&& forall|i: int|
        0 <= i < keys.len() ==> catalog.row(table, #[trigger] keys[i]) is Some && starts_with(
            keys[i],
            prefix,
        )
    &&& forall|i: int, j: int|
        0 <= i < j < keys.len() ==> key_before(#[trigger] keys[i], #[trigger] keys[j])
    &&& forall|key: Seq<u8>|
        #![trigger catalog.row(table, key)]
        catalog.row(table, key) is Some && starts_with(key, prefix) ==> keys.contains(key) || (
        forall|i: int| 0 <= i < keys.len() ==> key_before(#[trigger] keys[i], key))
}

/// Whether a row can decode.
pub open spec fn row_decodes<T, D: FnOnce(Vec<u8>) -> Result<T, MetadataError>>(
    decode: D,
    row: Seq<u8>,
) -> bool {
    exists|value: T| #[trigger] decodes(decode, row, Ok(value))
}

/// Whether an entry that a scan read can decode.
pub open spec fn entry_decodes<T, D: FnOnce(Vec<u8>) -> Result<T, MetadataError>>(
    decode: D,
    entry: Result<(Vec<u8>, Vec<u8>), Fault>,
) -> bool {
    entry matches Ok((_, row)) && row_decodes::<T, D>(decode, row@)
}

/// Whether an entry of a scan can fail with this error: its row does not decode,
/// or it could not be read.
pub open spec fn entry_fails<T, D: FnOnce(Vec<u8>) -> Result<T, MetadataError>>(
    decode: D,
    entry: Result<(Vec<u8>, Vec<u8>), Fault>,
    error: MetadataError,
) -> bool {
    match entry {
        Ok((_, row)) => decodes::<T, D>(decode, row@, Err(error)),
        Err(fault) => error matches MetadataError::Database { operation, reason } && operation@
            == "read part"@ && reason == fault.reason,
    }
}

/// Decodes the parts that a scan has read, in order. The first entry that could
/// not be read, or whose row does not decode, is what is reported.
pub fn decode_parts<T, D: Fn(Vec<u8>) -> Result<T, MetadataError>>(
    entries: Vec<Result<(Vec<u8>, Vec<u8>), Fault>>,
    decode: D,
) -> (outcome: Result<Vec<T>, MetadataError>)
    requires
        forall|row: Vec<u8>| call_requires(decode, (row,)),
    ensures
        match outcome {
            Ok(parts) => {
                &&& parts@.len() == entries@.len()
                &&& forall|i: int|
                    0 <= i < entries@.len() ==> (#[trigger] entries@[i]) is Ok && decodes(
                        decode,
                        entries@[i]->Ok_0.1@,
                        Ok(parts@[i]),
                    )
            },
            Err(error) => exists|at: int|
                {
                    &&& 0 <= at < entries@.len()
                    &&& forall|i: int|
                        0 <= i < at ==> entry_decodes::<T, D>(decode, #[trigger] entries@[i])
                    &&& #[trigger] entry_fails::<T, D>(decode, entries@[at], error)
                },
        },
{
    let mut parts: Vec<T> = Vec::new();
    let mut i: usize = 0;
    while i < entries.len()
        invariant
            i <= entries@.len(),
            parts@.len() == i,
            forall|row: Vec<u8>| call_requires(decode, (row,)),
            forall|j: int|
                0 <= j < i ==> (#[trigger] entries@[j]) is Ok && decodes(
                    decode,
                    entries@[j]->Ok_0.1@,
                    Ok(parts@[j]),
                ),
        decreases entries@.len() - i,
    {
        proof {
            assert forall|j: int| 0 <= j < i implies entry_decodes::<T, D>(
                decode,
                #[trigger] entries@[j],
            ) by {
                assert(decodes(decode, entries@[j]->Ok_0.1@, Ok(parts@[j])));
            }
        }
        match &entries[i] {
            Ok((_, row)) => {
                let row: Vec<u8> = row.clone();
                assert(row@ == entries@[i as int]->Ok_0.1@);
                match decode(row) {
                    Ok(part) => {
                        parts.push(part);
                    },
                    Err(error) => {
                        assert(entry_fails::<T, D>(decode, entries@[i as int], error));
                        return Err(error);
                    },
                }
            },
            Err(fault) => {
                let error: MetadataError = backend("read part", fault.reason.clone());
                assert(entry_fails::<T, D>(decode, entries@[i as int], error));
                return Err(error);
            },
        }
        i += 1;
    }
    Ok(parts)
}

/// Whether listing the rows under a prefix can stop with this error: after some
/// rows, all of which decode, an entry could not be read or a row does not
/// decode.
pub open spec fn listing_stops<T, D: FnOnce(Vec<u8>) -> Result<T, MetadataError>>(
    catalog: CatalogView,
    table: Seq<char>,
    decode: D,
    keys: Seq<Seq<u8>>,
    error: MetadataError,
) -> bool {
    ||| {
        &&& error.during("read part"@)
        &&& forall|i: int|
            0 <= i < keys.len() ==> row_decodes::<T, D>(
                decode,
                catalog.row(table, #[trigger] keys[i])->0,
            )
    }
    ||| {
        &&& keys.len() > 0
        &&& forall|i: int|
            0 <= i < keys.len() - 1 ==> row_decodes::<T, D>(
                decode,
                catalog.row(table, #[trigger] keys[i])->0,
            )
        &&& decodes::<T, D>(decode, catalog.row(table, keys.last())->0, Err(error))
    }
}

/// Whether a scan over exactly the keys under a prefix can read entries of which
/// the first that fails does so with this error.
pub open spec fn listing_fails<T, D: FnOnce(Vec<u8>) -> Result<T, MetadataError>>(
    tx: Transaction,
    table: Seq<char>,
    prefix: Seq<u8>,
    decode: D,
    error: MetadataError,
) -> bool {
    exists|end: Option<Seq<u8>>, entries: Vec<Result<(Vec<u8>, Vec<u8>), Fault>>, at: int|
        {
            &&& #[trigger] tx.range_gives(table, prefix, end, Ok(entries))
            &&& range_of_prefix(prefix, end)
            &&& 0 <= at < entries@.len()
            &&& forall|i: int|
                0 <= i < at ==> entry_decodes::<T, D>(decode, #[trigger] entries@[i])
            &&& #[trigger] entry_fails::<T, D>(decode, entries@[at], error)
        }
}

/// The keys that a scan has read, up to an entry.
spec fn keys_read(entries: Seq<Result<(Vec<u8>, Vec<u8>), Fault>>, count: nat) -> Seq<Seq<u8>> {
    Seq::new(count, |i: int| entries[i]->Ok_0.0@)
}

proof fn lemma_scan_under_prefix(
    catalog: CatalogView,
    table: Seq<char>,
    prefix: Seq<u8>,
    limit: Option<Seq<u8>>,
    entries: Seq<Result<(Vec<u8>, Vec<u8>), Fault>>,
    count: nat,
)
    requires
        is_row_scan(catalog.rows, table, prefix, limit, entries),
        forall|key: Seq<u8>| #[trigger]
            starts_with(key, prefix) <==> within(key, prefix, limit),
        count <= entries.len(),
        forall|i: int| 0 <= i < count ==> (#[trigger] entries[i]) is Ok,
    ensures
        first_keys_with_prefix(catalog, table, prefix, keys_read(entries, count)),
        count == entries.len() ==> keys_with_prefix(
            catalog,
            table,
            prefix,
            keys_read(entries, count),
        ),
        forall|i: int|
            0 <= i < count ==> catalog.row(table, #[trigger] keys_read(entries, count)[i]) == Some(
                entries[i]->Ok_0.1@,
            ),
{
    let keys = keys_read(entries, count);
    assert forall|i: int| 0 <= i < count implies {
        &&& catalog.row(table, #[trigger] keys[i]) == Some(entries[i]->Ok_0.1@)
        &&& starts_with(keys[i], prefix)
    } by {
        assert(entries[i] is Ok);
        assert(row_within(catalog.rows, table, prefix, limit, keys[i]));
    }
    assert forall|i: int, j: int| 0 <= i < j < count implies key_before(
        #[trigger] keys[i],
        #[trigger] keys[j],
    ) by {
        assert(entries[i] is Ok && entries[j] is Ok);
    }
    assert forall|key: Seq<u8>|
        #![trigger catalog.row(table, key)]
        catalog.row(table, key) is Some && starts_with(key, prefix) implies {
        &&& keys.contains(key) || (forall|i: int|
            0 <= i < keys.len() ==> key_before(#[trigger] keys[i], key))
        &&& count == entries.len() ==> keys.contains(key)
    } by {
        assert(row_within(catalog.rows, table, prefix, limit, key));
        if scanned(entries, key) {
            let at = choose|i: int|
                0 <= i < entries.len() && (#[trigger] entries[i]) is Ok && entries[i]->Ok_0.0@
                    == key;
            if at < count {
                assert(keys[at] == key);
            } else {
                assert forall|i: int| 0 <= i < keys.len() implies key_before(
                    #[trigger] keys[i],
                    key,
                ) by {
                    assert(entries[i] is Ok && entries[at] is Ok);
                }
            }
        } else {
            assert forall|i: int| 0 <= i < keys.len() implies key_before(
                #[trigger] keys[i],
                key,
            ) by {
                assert(entries[i] is Ok);
            }
            if count == entries.len() {
                assert(entries[count - 1] is Ok);
            }
        }
    }
}

/// Lists the parts of an upload, in the order of their keys.
pub fn list_parts_tx<T, D: Fn(Vec<u8>) -> Result<T, MetadataError>>(
    tx: &Transaction,
    id: UploadId,
    decode: D,
) -> (outcome: Result<Vec<T>, MetadataError>)
    requires
        forall|row: Vec<u8>| call_requires(decode, (row,)),
    ensures
        match outcome {
            Ok(parts) => exists|keys: Seq<Seq<u8>>|
                {
                    &&& #[trigger] keys_with_prefix(tx@, PARTS@, id.0@, keys)
                    &&& parts@.len() == keys.len()
                    &&& forall|i: int|
                        0 <= i < parts@.len() ==> decodes(
                            decode,
                            tx@.row(PARTS@, keys[i])->0,
                            Ok(#[trigger] parts@[i]),
                        )
                },
            Err(error) => {
                ||| (error.during("open parts"@) || error.during("range parts"@)) && exists|
                    end: Option<Seq<u8>>,
                |
                    range_of_prefix(id.0@, end) && #[trigger] tx.range_fails(
                        PARTS@,
                        id.0@,
                        end,
                        "open parts"@,
                        "range parts"@,
                        error,
                    )
                ||| exists|keys: Seq<Seq<u8>>|
                    {
                        &&& #[trigger] first_keys_with_prefix(tx@, PARTS@, id.0@, keys)
                        &&& listing_stops::<T, D>(tx@, PARTS@, decode, keys, error)
                    } && listing_fails::<T, D>(*tx, PARTS@, id.0@, decode, error)
            },
        },
{
    proof {
        lemma_schema();
    }
    let prefix: &[u8] = id.0.as_slice();
    let end = prefix_successor(prefix);
    let bound: Option<&[u8]> = match &end {
        Some(bytes) => Some(bytes.as_slice()),
        None => None,
    };
    let ghost limit = crate::catalog::bound_view(bound);
    proof {
        assert(range_of_prefix(id.0@, limit)) by {
            assert forall|key: Seq<u8>| #[trigger]
                within(key, id.0@, limit) <==> starts_with(key, id.0@) by {
                assert(starts_with(key, prefix@) <==> within(key, prefix@, limit));
            }
        }
    }
    let entries = match tx.range(PARTS, prefix, bound, rows("open parts", "range parts")) {
        Ok(entries) => entries,
        Err(error) => {
            return Err(error);
        },
    };
    let ghost listed = entries@;
    let ghost scan = entries;
    proof {
        assert forall|key: Seq<u8>| #[trigger]
            starts_with(key, id.0@) <==> within(key, id.0@, limit) by {
            assert(starts_with(key, prefix@) <==> within(key, prefix@, limit));
        }
    }
    match decode_parts(entries, decode) {
        Ok(parts) => {
            proof {
                assert forall|i: int| 0 <= i < listed.len() implies (#[trigger] listed[i]) is Ok by {
                }
                lemma_scan_under_prefix(tx@, PARTS@, id.0@, limit, listed, listed.len());
                let keys = keys_read(listed, listed.len());
                assert forall|i: int| 0 <= i < parts@.len() implies decodes(
                    decode,
                    tx@.row(PARTS@, keys[i])->0,
                    Ok(#[trigger] parts@[i]),
                ) by {
                    assert(listed[i] is Ok);
                    assert(tx@.row(PARTS@, keys[i]) == Some(listed[i]->Ok_0.1@));
                }
                assert(keys_with_prefix(tx@, PARTS@, id.0@, keys));
            }
            Ok(parts)
        },
        Err(error) => {
            proof {
                let at = choose|at: int|
                    {
                        &&& 0 <= at < listed.len()
                        &&& forall|i: int|
                            0 <= i < at ==> entry_decodes::<T, D>(decode, #[trigger] listed[i])
                        &&& #[trigger] entry_fails::<T, D>(decode, listed[at], error)
                    };
                let count: nat = if listed[at] is Ok {
                    (at + 1) as nat
                } else {
                    at as nat
                };
                assert forall|i: int| 0 <= i < count implies (#[trigger] listed[i]) is Ok by {
                    if i < at {
                        assert(entry_decodes::<T, D>(decode, listed[i]));
                    }
                }
                lemma_scan_under_prefix(tx@, PARTS@, id.0@, limit, listed, count);
                let keys = keys_read(listed, count);
                assert forall|i: int| 0 <= i < at implies row_decodes::<T, D>(
                    decode,
                    tx@.row(PARTS@, #[trigger] keys[i])->0,
                ) by {
                    assert(entry_decodes::<T, D>(decode, listed[i]));
                }
                assert(listing_stops::<T, D>(tx@, PARTS@, decode, keys, error));
                assert(first_keys_with_prefix(tx@, PARTS@, id.0@, keys));
                assert(tx.range_gives(PARTS@, id.0@, limit, Ok(scan)));
                assert(entry_fails::<T, D>(decode, scan@[at], error));
            }
            Err(error)
        },
    }
}

/// Whether a scan found anything, given how its first step went.
pub open spec fn scan_occupied<T>(first: Result<Option<T>, Fault>) -> Result<bool, Fault> {
    match first {
        Ok(entry) => Ok(entry is Some),
        Err(fault) => if fault.stage == Stage::Entry {
            Ok(true)
        } else {
            Err(fault)
        },
    }
}

/// Returns whether a scan found anything, given how its first step went. An
/// entry that cannot be read is still an entry.
pub fn occupied<T>(first: Result<Option<T>, Fault>) -> (outcome: Result<bool, Fault>)
    ensures
        outcome == scan_occupied(first),
{
    match first {
        Ok(entry) => Ok(entry.is_some()),
        Err(fault) => match fault.stage {
            Stage::Entry => Ok(true),
            Stage::Open => Err(fault),
            Stage::Access => Err(fault),
        },
    }
}

/// Returns whether a bucket has an unfinished multipart upload.
///
/// The answer is that of the first step of a scan over exactly the keys under the
/// prefix. "No" is never said while there is an upload; "yes" is also said of an
/// entry that the storage engine failed to read.
pub fn has_multipart(tx: &Transaction, prefix: &[u8]) -> (outcome: Result<bool, MetadataError>)
    ensures
        multipart_answer(*tx, prefix@, outcome),
        match outcome {
            Ok(found) => exists|first: Result<Option<(Vec<u8>, Vec<u8>)>, Fault>|
                {
                    &&& #[trigger] prefix_scan_gives(*tx, MULTIPART_ORDER@, prefix@, first)
                    &&& scan_occupied(first) == Ok::<bool, Fault>(found)
                    &&& first matches Ok(None) ==> none_with_prefix(
                        tx@,
                        MULTIPART_ORDER@,
                        prefix@,
                    )
                    &&& first matches Ok(Some((key, _))) ==> least_with_prefix(
                        tx@,
                        MULTIPART_ORDER@,
                        prefix@,
                        key@,
                    )
                },
            Err(error) => error.during("open multipart order"@) || error.during("range multipart"@),
        },
        !none_with_prefix(tx@, MULTIPART_ORDER@, prefix@) ==> outcome != Ok::<bool, MetadataError>(
            false,
        ),
{
    proof {
        lemma_schema();
    }
    let order = rows("open multipart order", "range multipart");
    let first = first_with_prefix(tx, MULTIPART_ORDER, prefix);
    let ghost seen = first;
    assert(prefix_scan_gives(*tx, MULTIPART_ORDER@, prefix@, seen));
    match occupied(first) {
        Ok(found) => Ok(found),
        Err(fault) => Err(order.report(fault)),
    }
}

/// Whether the first step of a scan over exactly the keys under a prefix can give
/// this answer: found where it gave an entry or one that could not be read, not
/// found where it gave none, and otherwise its failure. An entry that it gave is
/// an upload under the prefix.
pub open spec fn multipart_answer(
    tx: Transaction,
    prefix: Seq<u8>,
    outcome: Result<bool, MetadataError>,
) -> bool {
    exists|first: Result<Option<(Vec<u8>, Vec<u8>)>, Fault>|
        {
            &&& #[trigger] prefix_scan_gives(tx, MULTIPART_ORDER@, prefix, first)
            &&& match first {
                Ok(None) => outcome == Ok::<bool, MetadataError>(false) && none_with_prefix(
                    tx@,
                    MULTIPART_ORDER@,
                    prefix,
                ),
                Ok(Some((key, _))) => outcome == Ok::<bool, MetadataError>(true)
                    && least_with_prefix(tx@, MULTIPART_ORDER@, prefix, key@),
                Err(fault) => if fault.stage == Stage::Entry {
                    outcome == Ok::<bool, MetadataError>(true)
                } else {
                    outcome matches Err(error) && reports_fault(
                        "open multipart order"@,
                        "range multipart"@,
                        "range multipart"@,
                        fault,
                        error,
                    )
                },
            }
        }
}

/// Returns the metadata of a version that has a payload.
pub fn as_object(record: &ObjectVersionRecord) -> (metadata: Option<&ObjectMetadata>)
    ensures
        match *record {
            ObjectVersionRecord::Object { metadata: held } => metadata == Some(&held),
            ObjectVersionRecord::DeleteMarker { .. } => metadata is None,
        },
{
    match record {
        ObjectVersionRecord::Object { metadata } => Some(metadata),
        ObjectVersionRecord::DeleteMarker { .. } => None,
    }
}

/// Returns whether a version belongs to this key of this bucket.
pub fn record_matches(record: &ObjectVersionRecord, bucket: BucketId, key: &ObjectKey) -> (matches:
    bool)
    ensures
        matches == match *record {
            ObjectVersionRecord::Object { metadata } => metadata.bucket_id == bucket
                && metadata.key.0@ == key.0@,
            ObjectVersionRecord::DeleteMarker { marker } => marker.bucket_id == bucket
                && marker.key.0@ == key.0@,
        },
{
    match record {
        ObjectVersionRecord::Object { metadata } => {
            bytes_equal(&metadata.bucket_id.0, &bucket.0) && metadata.key.0 == key.0
        },
        ObjectVersionRecord::DeleteMarker { marker } => {
            bytes_equal(&marker.bucket_id.0, &bucket.0) && marker.key.0 == key.0
        },
    }
}

/// Enters a payload among those that wait to be removed.
pub fn queue_cleanup(tx: &mut Transaction, id: ObjectId) -> (outcome: Result<(), MetadataError>)
    ensures
        outcome is Ok ==> final(tx)@ == (CatalogView {
            flags: old(tx)@.flags.insert((CLEANUP@, id.0@), 1),
            ..old(tx)@
        }),
        outcome matches Err(error) ==> (error.during("open cleanup"@) || error.during(
            "queue cleanup"@,
        )) && old(tx).insert_flag_fails(
            CLEANUP@,
            id.0@,
            1,
            "open cleanup"@,
            "queue cleanup"@,
            error,
        ),
{
    proof {
        lemma_schema();
    }
    tx.insert_flag(CLEANUP, id.0.as_slice(), 1, rows("open cleanup", "queue cleanup"))
}

/// A named total; one that was never written is zero.
pub open spec fn counter_value(catalog: CatalogView, name: Seq<char>) -> u64 {
    match lookup(catalog.counters, (COUNTERS@, name)) {
        Some(value) => value,
        None => 0,
    }
}

/// Reads a named total; one that was never written is zero.
pub fn read_counter(tx: &Transaction, name: &'static str) -> (outcome: Result<u64, MetadataError>)
    ensures
        match outcome {
            Ok(value) => value == counter_value(tx@, name@),
            Err(error) => (error.during("open counters"@) || error.during("read counter"@))
                && tx.counter_fails(COUNTERS@, name@, "open counters"@, "read counter"@, error),
        },
{
    proof {
        lemma_schema();
    }
    match tx.counter(COUNTERS, name, rows("open counters", "read counter")) {
        Ok(found) => Ok(found_or_fallback(found, 0)),
        Err(error) => Err(error),
    }
}

/// Reads a named total in a snapshot; one that was never written is zero.
pub fn read_counter_read(snapshot: &Snapshot, name: &'static str) -> (outcome: Result<
    u64,
    MetadataError,
>)
    ensures
        match outcome {
            Ok(value) => value == match lookup(snapshot@.counters, (COUNTERS@, name@)) {
                Some(held) => held,
                None => 0,
            },
            Err(error) => (error.during("open counters"@) || error.during("read counter"@))
                && snapshot.counter_fails(
                COUNTERS@,
                name@,
                "open counters"@,
                "read counter"@,
                error,
            ),
        },
{
    proof {
        lemma_schema();
    }
    match snapshot.counter(COUNTERS, name, rows("open counters", "read counter")) {
        Ok(found) => Ok(found_or_fallback(found, 0)),
        Err(error) => Err(error),
    }
}

/// Adds to a total, if the sum is one that a total can have.
pub fn adjusted(value: u64, delta: i128) -> (sum: Option<u64>)
    ensures
        sum is Some <==> 0 <= value + delta <= u64::MAX,
        sum matches Some(total) ==> total == value + delta,
{
    match (value as i128).checked_add(delta) {
        Some(total) => if 0 <= total && total <= u64::MAX as i128 {
            Some(total as u64)
        } else {
            None
        },
        None => None,
    }
}

/// Adds to a named total. A total can neither fall below zero nor exceed its
/// range; such a change is refused and nothing is written.
pub fn adjust_counter(tx: &mut Transaction, name: &'static str, delta: i128) -> (outcome: Result<
    (),
    MetadataError,
>)
    ensures
        ({
            let sum = counter_value(old(tx)@, name@) + delta;
            match outcome {
                Ok(()) => {
                    &&& 0 <= sum <= u64::MAX
                    &&& final(tx)@ == (CatalogView {
                        counters: old(tx)@.counters.insert((COUNTERS@, name@), sum as u64),
                        ..old(tx)@
                    })
                },
                Err(MetadataError::CounterOutOfRange) => !(0 <= sum <= u64::MAX) && final(tx)@
                    == old(tx)@,
                Err(error) => {
                    ||| (error.during("open counters"@) || error.during("read counter"@))
                        && final(tx)@ == old(tx)@ && old(tx).counter_fails(
                        COUNTERS@,
                        name@,
                        "open counters"@,
                        "read counter"@,
                        error,
                    )
                    ||| 0 <= sum <= u64::MAX && (error.during("open counters"@) || error.during(
                        "write counter"@,
                    )) && old(tx).insert_counter_fails(
                        COUNTERS@,
                        name@,
                        sum as u64,
                        "open counters"@,
                        "write counter"@,
                        error,
                    )
                },
            }
        }),
{
    proof {
        lemma_schema();
    }
    let value: u64 = match read_counter(tx, name) {
        Ok(value) => value,
        Err(error) => {
            return Err(error);
        },
    };
    match adjusted(value, delta) {
        Some(total) => tx.insert_counter(
            COUNTERS,
            name,
            total,
            rows("open counters", "write counter"),
        ),
        None => Err(MetadataError::CounterOutOfRange),
    }
}

/// Whether a version's row can stand for this Object Lock state; a version
/// without a row is unlocked.
pub open spec fn holds_lock<D: FnOnce(Vec<u8>) -> Result<ObjectLockState, MetadataError>>(
    decode: D,
    row: Option<Seq<u8>>,
    state: ObjectLockState,
) -> bool {
    found_or(decode, row, unlocked(), Ok(state))
}

/// Reads the Object Lock state recorded for one version.
///
/// A version with no record is unlocked, which is why this returns a value
/// rather than an option: every caller would otherwise have to remember that
/// the absent case and the empty case mean the same thing.
pub fn read_object_lock<D: FnOnce(Vec<u8>) -> Result<ObjectLockState, MetadataError>>(
    tx: &Transaction,
    key: &[u8],
    decode: D,
) -> (outcome: Result<ObjectLockState, MetadataError>)
    requires
        forall|row: Vec<u8>| call_requires(decode, (row,)),
    ensures
        found_or(decode, tx@.row(OBJECT_LOCKS@, key@), unlocked(), outcome) || (outcome matches Err(
            error,
        ) && (error.during("open table"@) || error.during("read object lock"@)) && tx.get_fails(
            OBJECT_LOCKS@,
            key@,
            "open table"@,
            "read object lock"@,
            error,
        )),
{
    proof {
        lemma_schema();
    }
    match read_tx(tx, OBJECT_LOCKS, key, "read object lock", decode) {
        Ok(found) => Ok(found_or_fallback(found, ObjectLockState::default())),
        Err(error) => Err(error),
    }
}

/// Persists Object Lock state, removing the record once nothing is held.
pub fn write_object_lock<E: FnOnce(&ObjectLockState) -> Result<Vec<u8>, MetadataError>>(
    tx: &mut Transaction,
    key: &[u8],
    state: ObjectLockState,
    encode: E,
) -> (outcome: Result<(), MetadataError>)
    requires
        call_requires(encode, (&state,)),
    ensures
        match outcome {
            Ok(()) => if state == unlocked() {
                final(tx)@ == old(tx)@.without_row(OBJECT_LOCKS@, key@)
            } else {
                exists|encoded: Vec<u8>| #[trigger]
                    call_ensures(encode, (&state,), Ok(encoded)) && final(tx)@ == old(tx)@.with_row(
                        OBJECT_LOCKS@,
                        key@,
                        encoded@,
                    )
            },
            Err(error) => {
                ||| state == unlocked() && (error.during("open object locks"@) || error.during(
                    "clear object lock"@,
                )) && old(tx).remove_fails(
                    OBJECT_LOCKS@,
                    key@,
                    "open object locks"@,
                    "clear object lock"@,
                    error,
                )
                ||| state != unlocked() && error.during("open object locks"@) && final(tx)@
                    == old(tx)@ && old(tx).open_fails(
                    OBJECT_LOCKS@,
                    "open object locks"@,
                    "write object lock"@,
                    error,
                )
                ||| state != unlocked() && (error.during("open object locks"@) || error.during(
                    "write object lock"@,
                )) && exists|encoded: Vec<u8>| #[trigger]
                    call_ensures(encode, (&state,), Ok(encoded)) && old(tx).insert_fails(
                        OBJECT_LOCKS@,
                        key@,
                        encoded@,
                        "open object locks"@,
                        "write object lock"@,
                        error,
                    )
                ||| state != unlocked() && call_ensures(encode, (&state,), Err(error)) && final(tx)@ == old(tx)@
            },
        },
{
    proof {
        lemma_schema();
    }
    if state.is_unlocked() {
        return match tx.remove(OBJECT_LOCKS, key, rows("open object locks", "clear object lock")) {
            Ok(_) => Ok(()),
            Err(error) => Err(error),
        };
    }
    let operation = rows("open object locks", "write object lock");
    match tx.open(OBJECT_LOCKS, operation) {
        Ok(()) => {},
        Err(error) => {
            return Err(error);
        },
    }
    let encoded: Vec<u8> = match encode(&state) {
        Ok(encoded) => encoded,
        Err(error) => {
            return Err(error);
        },
    };
    tx.insert(OBJECT_LOCKS, key, encoded.as_slice(), operation)
}

/// Drops the lock record of a version that is being removed.
pub fn remove_object_lock(tx: &mut Transaction, key: &[u8]) -> (outcome: Result<(), MetadataError>)
    ensures
        outcome is Ok ==> final(tx)@ == old(tx)@.without_row(OBJECT_LOCKS@, key@),
        outcome matches Err(error) ==> (error.during("open object locks"@) || error.during(
            "remove object lock"@,
        )) && old(tx).remove_fails(
            OBJECT_LOCKS@,
            key@,
            "open object locks"@,
            "remove object lock"@,
            error,
        ),
{
    proof {
        lemma_schema();
    }
    match tx.remove(OBJECT_LOCKS, key, rows("open object locks", "remove object lock")) {
        Ok(_) => Ok(()),
        Err(error) => Err(error),
    }
}

/// Inputs to any operation that could release a retained version.
///
/// Every value here is non-deterministic or configured, so it travels with the
/// command rather than being read from the environment during application. That
/// is what lets the same command sequence produce the same state anywhere.
#[derive(Debug, Clone, Copy, PartialEq, Eq)]
pub struct LockRelease {
    /// Wall-clock time as the caller observed it.
    pub observed_at: Timestamp,
    /// How far behind the high-water mark the clock may be before the catalog
    /// stops trusting it. This absorbs ordinary NTP correction, not a jump.
    pub clock_tolerance_seconds: u32,
    /// Whether the caller presented an authorized governance bypass.
    ///
    /// Only the lock service sets this, and only after checking the caller's
    /// explicit bypass permission. It never releases a compliance retention or
    /// a legal hold.
    pub bypass_governance: bool,
}

impl LockRelease {
    /// Builds the inputs for an operation that carries no bypass.
    pub fn new(observed_at: Timestamp, clock_tolerance_seconds: u32) -> (release: LockRelease)
        ensures
            release == (LockRelease {
                observed_at,
                clock_tolerance_seconds,
                bypass_governance: false,
            }),
    {
        LockRelease { observed_at, clock_tolerance_seconds, bypass_governance: false }
    }

    /// Returns the same inputs with an authorized governance bypass applied.
    pub fn with_governance_bypass(self, bypass: bool) -> (release: LockRelease)
        ensures
            release == (LockRelease { bypass_governance: bypass, ..self }),
    {
        LockRelease {
            observed_at: self.observed_at,
            clock_tolerance_seconds: self.clock_tolerance_seconds,
            bypass_governance: bypass,
        }
    }
}

/// The recorded high-water mark, in microseconds.
pub open spec fn clock_mark(catalog: CatalogView) -> Option<i64> {
    lookup(catalog.clocks, (CLOCK@, CLOCK_WATERMARK@))
}

/// Whether the clock is further behind the mark than the tolerance absorbs.
pub open spec fn clock_behind(mark: Option<i64>, now: int, tolerance_seconds: u32) -> bool {
    mark matches Some(mark) && now < mark - tolerance_seconds * 1_000_000
}

/// Whether the observed time is a new high-water mark.
pub open spec fn clock_advances(mark: Option<i64>, now: int) -> bool {
    mark matches Some(mark) ==> now > mark
}

/// The catalog after an accepted observation: the mark rises to the observed
/// time, and is never lowered.
pub open spec fn clock_observed(before: CatalogView, now: int) -> CatalogView {
    if clock_advances(clock_mark(before), now) {
        CatalogView {
            clocks: before.clocks.insert((CLOCK@, CLOCK_WATERMARK@), now as i64),
            ..before
        }
    } else {
        before
    }
}

/// What to do with an observed time.
#[derive(Debug, Clone, Copy, PartialEq, Eq, Structural)]
pub enum ClockVerdict {
    /// The clock cannot be trusted.
    Behind,
    /// The clock is trusted and the mark stays.
    Keep,
    /// The clock is trusted and becomes the mark.
    Advance,
}

/// Judges an observed time against the recorded mark.
pub fn judge_clock(mark: Option<i64>, now: i64, tolerance_seconds: u32) -> (verdict: ClockVerdict)
    ensures
        verdict == (if clock_behind(mark, now as int, tolerance_seconds) {
            ClockVerdict::Behind
        } else if clock_advances(mark, now as int) {
            ClockVerdict::Advance
        } else {
            ClockVerdict::Keep
        }),
{
    match mark {
        None => ClockVerdict::Advance,
        Some(mark) => {
            let tolerance: i64 = match duration_micros(tolerance_seconds) {
                Some(tolerance) => tolerance,
                None => 0,
            };
            let floor: i64 = match mark.checked_sub(tolerance) {
                Some(floor) => floor,
                None => i64::MIN,
            };
            if now < floor {
                ClockVerdict::Behind
            } else if now > mark {
                ClockVerdict::Advance
            } else {
                ClockVerdict::Keep
            }
        },
    }
}

/// Whether the database can fail an observation like this: before the mark is
/// known nothing has changed, and only a new mark is written.
pub open spec fn clock_fails(
    before: Transaction,
    release: LockRelease,
    error: MetadataError,
    after: CatalogView,
) -> bool {
    let now = release.observed_at.micros();
    let mark = clock_mark(before@);
    ||| {
        &&& error.during("open clock"@) || error.during("read clock"@)
        &&& after == before@
        &&& before.clock_fails(CLOCK@, CLOCK_WATERMARK@, "open clock"@, "read clock"@, error)
    }
    ||| {
        &&& error.during("open clock"@) || error.during("write clock"@)
        &&& !clock_behind(mark, now, release.clock_tolerance_seconds)
        &&& clock_advances(mark, now)
        &&& before.insert_clock_fails(
            CLOCK@,
            CLOCK_WATERMARK@,
            now as i64,
            "open clock"@,
            "write clock"@,
            error,
        )
    }
}

/// Advances the observed-time high-water mark, or reports that it cannot be.
///
/// A clock that runs forward and comes back would otherwise let a retention
/// expire early and stay expired. The mark is never lowered, and the wall clock
/// is never substituted by the mark: a forward jump must not become a permanent
/// licence to delete, so the answer to a clock behind the mark is to refuse,
/// not to pick the larger number.
pub fn observe_clock(tx: &mut Transaction, release: LockRelease) -> (outcome: Result<
    (),
    MetadataError,
>)
    ensures
        ({
            let now = release.observed_at.micros();
            let behind = clock_behind(
                clock_mark(old(tx)@),
                now,
                release.clock_tolerance_seconds,
            );
            match outcome {
                Ok(()) => !behind && final(tx)@ == clock_observed(old(tx)@, now),
                Err(MetadataError::ClockWentBackwards) => behind && final(tx)@ == old(tx)@,
                Err(error) => clock_fails(*old(tx), release, error, final(tx)@),
            }
        }),
{
    proof {
        lemma_schema();
    }
    let now: i64 = release.observed_at.timestamp_micros();
    let mark: Option<i64> = match tx.clock(
        CLOCK,
        CLOCK_WATERMARK,
        rows("open clock", "read clock"),
    ) {
        Ok(mark) => mark,
        Err(error) => {
            return Err(error);
        },
    };
    match judge_clock(mark, now, release.clock_tolerance_seconds) {
        ClockVerdict::Behind => Err(MetadataError::ClockWentBackwards),
        ClockVerdict::Keep => Ok(()),
        ClockVerdict::Advance => tx.insert_clock(
            CLOCK,
            CLOCK_WATERMARK,
            now,
            rows("open clock", "write clock"),
        ),
    }
}

/// What still stands in the way of removing a version in this state, once an
/// authorized bypass has been taken into account.
pub open spec fn remaining_block(state: ObjectLockState, release: LockRelease) -> Option<
    DeletionBlock,
> {
    match state.block_at(release.observed_at) {
        Some(block) if !(block.bypassable() && release.bypass_governance) => Some(block),
        _ => None,
    }
}

/// Returns what still stands in the way of removing a version in this state.
pub fn deletion_refusal(state: &ObjectLockState, release: LockRelease) -> (block: Option<
    DeletionBlock,
>)
    ensures
        block == remaining_block(*state, release),
{
    match state.deletion_block_at(release.observed_at) {
        None => None,
        Some(block) => if block.is_bypassable() && release.bypass_governance {
            None
        } else {
            Some(block)
        },
    }
}

/// Refuses to remove a version that Object Lock still holds.
///
/// This runs inside the transaction that would do the removal, so a retention
/// placed or extended concurrently cannot slip between the check and the write.
pub fn enforce_deletable<D: FnOnce(Vec<u8>) -> Result<ObjectLockState, MetadataError>>(
    tx: &mut Transaction,
    key: &[u8],
    release: LockRelease,
    decode: D,
) -> (outcome: Result<(), MetadataError>)
    requires
        forall|row: Vec<u8>| call_requires(decode, (row,)),
    ensures
        ({
            let row = old(tx)@.row(OBJECT_LOCKS@, key@);
            let now = release.observed_at.micros();
            let behind = clock_behind(
                clock_mark(old(tx)@),
                now,
                release.clock_tolerance_seconds,
            );
            ||| exists|state: ObjectLockState| #[trigger]
                holds_lock(decode, row, state) && {
                    if state == unlocked() {
                        outcome is Ok && final(tx)@ == old(tx)@
                    } else if behind {
                        outcome == Err::<(), _>(MetadataError::ClockWentBackwards) && final(tx)@
                            == old(tx)@
                    } else {
                        &&& final(tx)@ == clock_observed(old(tx)@, now)
                        &&& outcome == match remaining_block(state, release) {
                            None => Ok::<(), MetadataError>(()),
                            Some(block) => Err::<(), MetadataError>(
                                MetadataError::VersionLocked(block),
                            ),
                        }
                    }
                }
            ||| outcome matches Err(error) && row matches Some(bytes) && decodes::<
                ObjectLockState,
                D,
            >(decode, bytes, Err(error)) && final(tx)@ == old(tx)@
            ||| outcome matches Err(error) && (error.during("open table"@) || error.during(
                "read object lock"@,
            )) && final(tx)@ == old(tx)@ && old(tx).get_fails(
                OBJECT_LOCKS@,
                key@,
                "open table"@,
                "read object lock"@,
                error,
            )
            ||| exists|state: ObjectLockState|
                {
                    &&& #[trigger] holds_lock(decode, row, state)
                    &&& state != unlocked()
                    &&& outcome matches Err(error) && clock_fails(
                        *old(tx),
                        release,
                        error,
                        final(tx)@,
                    )
                }
        }),
{
    let state: ObjectLockState = match read_object_lock(tx, key, decode) {
        Ok(state) => state,
        Err(error) => {
            return Err(error);
        },
    };
    assert(holds_lock(decode, tx@.row(OBJECT_LOCKS@, key@), state));
    if state.is_unlocked() {
        return Ok(());
    }
    match observe_clock(tx, release) {
        Ok(()) => {},
        Err(error) => {
            return Err(error);
        },
    }
    match deletion_refusal(&state, release) {
        None => Ok(()),
        Some(block) => Err(MetadataError::VersionLocked(block)),
    }
}

} // verus!
