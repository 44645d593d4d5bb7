//! What the catalog's operations guarantee together.

use vstd::prelude::*;

use crate::catalog::{
    bound_view, bytes_view, lookup, reports_fault, CatalogView, Fault, Snapshot, SnapshotView, Stage,
    Transaction,
};
use crate::error::MetadataError;
use crate::keys::{key_before, starts_with, within};
use crate::retention::{unlocked, DeletionBlock, ObjectLockState, Retention, RetentionMode};
use crate::schema::{
    lemma_schema, BUCKETS, BUCKET_NAMES, CLOCK, CLOCK_WATERMARK, COUNTERS, MARKERS,
    MULTIPART_ORDER, NULL_VERSIONS, OBJECTS, OBJECT_LOCKS,
    VERSIONS, VERSION_ORDER,
};
use crate::time::{lemma_micros_fit, Timestamp};
use crate::tx::{
    bucket_stored, clock_advances, clock_behind, clock_mark, clock_observed, contradicts,
    counter_value, current_from, current_removed, current_table, decodes, decodes_found,
    entry_decodes, entry_fails, first_keys_with_prefix, found_or, holds_lock, keys_with_prefix,
    least_with_prefix, listing_stops, multipart_answer, none_with_prefix, null_cleared,
    prefix_scan_gives, publishes, range_of_prefix, remaining_block, row_decodes, scan_occupied, update_ready, update_refuses, version_inserted, version_removed,
    LockRelease,
};
use crate::types::{Bucket, DeleteMarker, ObjectMetadata, ObjectVersionRecord, VersionId};

verus! {

/// A version that was inserted is found by its identifier, and its place in the
/// order points to it.
pub proof fn law_inserted_version_is_found(
    catalog: CatalogView,
    id: VersionId,
    order_key: Seq<u8>,
    encoded: Seq<u8>,
)
    ensures
        version_inserted(catalog, id, order_key, encoded).row(VERSIONS@, id.0@) == Some(encoded),
        version_inserted(catalog, id, order_key, encoded).row(VERSION_ORDER@, order_key) == Some(
            id.0@,
        ),
{
    lemma_schema();
}

/// Removing a version undoes its insertion, where the insertion replaced nothing.
pub proof fn law_removal_undoes_insertion(
    catalog: CatalogView,
    id: VersionId,
    order_key: Seq<u8>,
    encoded: Seq<u8>,
)
    requires
        catalog.row(VERSIONS@, id.0@) is None,
        catalog.row(VERSION_ORDER@, order_key) is None,
    ensures
        version_removed(version_inserted(catalog, id, order_key, encoded), id, order_key)
            == catalog,
{
    lemma_schema();
    assert(version_removed(version_inserted(catalog, id, order_key, encoded), id, order_key)
        =~= catalog);
}

/// A version inserted ahead of all others under its prefix is the latest one.
pub proof fn law_version_inserted_first_is_latest(
    catalog: CatalogView,
    prefix: Seq<u8>,
    id: VersionId,
    order_key: Seq<u8>,
    encoded: Seq<u8>,
)
    requires
        starts_with(order_key, prefix),
        forall|other: Seq<u8>|
            #![trigger catalog.row(VERSION_ORDER@, other)]
            catalog.row(VERSION_ORDER@, other) is Some && starts_with(other, prefix)
                ==> key_before(order_key, other),
    ensures
        least_with_prefix(
            version_inserted(catalog, id, order_key, encoded),
            VERSION_ORDER@,
            prefix,
            order_key,
        ),
{
    lemma_schema();
    let after = version_inserted(catalog, id, order_key, encoded);
    assert forall|other: Seq<u8>|
        #![trigger after.row(VERSION_ORDER@, other)]
        after.row(VERSION_ORDER@, other) is Some && starts_with(other, prefix) implies !key_before(
        other,
        order_key,
    ) by {
        if other == order_key {
            lemma_key_before_irreflexive(order_key);
        } else {
            assert(catalog.row(VERSION_ORDER@, other) is Some);
            lemma_key_before_asymmetric(order_key, other);
        }
    }
}

proof fn lemma_key_before_irreflexive(a: Seq<u8>)
    ensures
        !key_before(a, a),
    decreases a.len(),
{
    if a.len() > 0 {
        lemma_key_before_irreflexive(a.skip(1));
    }
}

proof fn lemma_key_before_asymmetric(a: Seq<u8>, b: Seq<u8>)
    requires
        key_before(a, b),
    ensures
        !key_before(b, a),
    decreases a.len(),
{
    if a.len() > 0 && b.len() > 0 && a[0] == b[0] {
        lemma_key_before_asymmetric(a.skip(1), b.skip(1));
    }
}

/// The latest version of an object is one and the same whoever looks: a table
/// has at most one least key under a prefix.
pub proof fn law_latest_version_is_unique(
    catalog: CatalogView,
    prefix: Seq<u8>,
    a: Seq<u8>,
    b: Seq<u8>,
)
    requires
        least_with_prefix(catalog, VERSION_ORDER@, prefix, a),
        least_with_prefix(catalog, VERSION_ORDER@, prefix, b),
    ensures
        a == b,
        !none_with_prefix(catalog, VERSION_ORDER@, prefix),
{
    lemma_key_before_total(a, b);
}

proof fn lemma_key_before_total(a: Seq<u8>, b: Seq<u8>)
    ensures
        a == b || key_before(a, b) || key_before(b, a),
    decreases a.len(),
{
    if a.len() > 0 && b.len() > 0 {
        if a[0] == b[0] {
            lemma_key_before_total(a.skip(1), b.skip(1));
            if a.skip(1) == b.skip(1) {
                assert(a.len() == a.skip(1).len() + 1);
                assert(b.len() == b.skip(1).len() + 1);
                assert forall|i: int| 0 <= i < a.len() implies a[i] == b[i] by {
                    if i > 0 {
                        assert(a.skip(1)[i - 1] == b.skip(1)[i - 1]);
                    }
                }
                assert(a =~= b);
            }
        }
    } else if a.len() == 0 && b.len() == 0 {
        assert(a =~= b);
    }
}

/// The null version that was set is the one found, its record is untouched, and
/// clearing it leaves the object without a null version.
pub proof fn law_null_version_set_is_found_and_cleared(
    catalog: CatalogView,
    key: Seq<u8>,
    id: VersionId,
)
    ensures
        ({
            let after = catalog.with_row(NULL_VERSIONS@, key, id.0@);
            &&& after.row(NULL_VERSIONS@, key) == Some(id.0@)
            &&& after.row(VERSIONS@, id.0@) == catalog.row(VERSIONS@, id.0@)
            &&& after.without_row(NULL_VERSIONS@, key) == catalog.without_row(NULL_VERSIONS@, key)
            &&& null_cleared(after, key, id) == catalog.without_row(NULL_VERSIONS@, key)
        }),
{
    lemma_schema();
    let after = catalog.with_row(NULL_VERSIONS@, key, id.0@);
    assert(after.without_row(NULL_VERSIONS@, key) =~= catalog.without_row(NULL_VERSIONS@, key));
}

/// Clearing a version that is not the null version changes nothing.
pub proof fn law_clearing_spares_another_null_version(
    catalog: CatalogView,
    key: Seq<u8>,
    id: VersionId,
)
    requires
        catalog.row(NULL_VERSIONS@, key) != Some(id.0@),
    ensures
        null_cleared(catalog, key, id) == catalog,
{
}

/// Once nothing is current under a key, no version is.
pub proof fn law_nothing_is_current_after_removal<
    O: FnOnce(Vec<u8>) -> Result<ObjectMetadata, MetadataError>,
    M: FnOnce(Vec<u8>) -> Result<DeleteMarker, MetadataError>,
>(
    catalog: CatalogView,
    key: Seq<u8>,
    decode_object: O,
    decode_marker: M,
    outcome: Result<Option<VersionId>, MetadataError>,
)
    requires
        ({
            let after = current_removed(catalog, key);
            current_from(
                after.row(OBJECTS@, key),
                after.row(MARKERS@, key),
                decode_object,
                decode_marker,
                outcome,
            )
        }),
    ensures
        outcome == Ok::<Option<VersionId>, MetadataError>(None),
{
    lemma_schema();
}

/// What is published under a key with nothing current is what is current, given
/// that its row decodes to the record that was encoded.
pub proof fn law_published_version_is_current<
    O: FnOnce(Vec<u8>) -> Result<ObjectMetadata, MetadataError>,
    M: FnOnce(Vec<u8>) -> Result<DeleteMarker, MetadataError>,
>(
    catalog: CatalogView,
    key: Seq<u8>,
    record: ObjectVersionRecord,
    encoded: Seq<u8>,
    decode_object: O,
    decode_marker: M,
    outcome: Result<Option<VersionId>, MetadataError>,
)
    requires
        record matches ObjectVersionRecord::Object { metadata } ==> forall|
            decoded: Result<ObjectMetadata, MetadataError>,
        | #[trigger]
            decodes(decode_object, encoded, decoded) ==> decoded == Ok::<_, MetadataError>(metadata),
        record matches ObjectVersionRecord::DeleteMarker { marker } ==> forall|
            decoded: Result<DeleteMarker, MetadataError>,
        | #[trigger]
            decodes(decode_marker, encoded, decoded) ==> decoded == Ok::<_, MetadataError>(marker),
        ({
            let after = current_removed(catalog, key).with_row(
                current_table(record),
                key,
                encoded,
            );
            current_from(
                after.row(OBJECTS@, key),
                after.row(MARKERS@, key),
                decode_object,
                decode_marker,
                outcome,
            )
        }),
    ensures
        outcome == Ok::<Option<VersionId>, MetadataError>(Some(record.id())),
{
    lemma_schema();
}

/// A bucket is stored under its identifier and under its name alike.
pub proof fn law_bucket_is_stored_twice(
    catalog: CatalogView,
    key: Seq<u8>,
    name: Seq<char>,
    encoded: Seq<u8>,
)
    ensures
        bucket_stored(catalog, key, name, encoded).row(BUCKETS@, key) == Some(encoded),
        bucket_stored(catalog, key, name, encoded).names[(BUCKET_NAMES@, name)] == encoded,
{
}

/// A lock that was written is the lock that is read, given that its row decodes
/// to the state that was encoded.
pub proof fn law_written_lock_is_read<
    D: FnOnce(Vec<u8>) -> Result<ObjectLockState, MetadataError>,
>(
    catalog: CatalogView,
    key: Seq<u8>,
    state: ObjectLockState,
    encoded: Seq<u8>,
    decode: D,
    found: ObjectLockState,
)
    requires
        forall|decoded: Result<ObjectLockState, MetadataError>| #[trigger]
            decodes(decode, encoded, decoded) ==> decoded == Ok::<_, MetadataError>(state),
        holds_lock(
            decode,
            catalog.with_row(OBJECT_LOCKS@, key, encoded).row(OBJECT_LOCKS@, key),
            found,
        ),
    ensures
        found == state,
{
    assert(decodes(decode, encoded, Ok::<_, MetadataError>(found)));
}

/// A version whose lock record was removed reads as unlocked.
pub proof fn law_removed_lock_reads_as_unlocked<
    D: FnOnce(Vec<u8>) -> Result<ObjectLockState, MetadataError>,
>(catalog: CatalogView, key: Seq<u8>, decode: D, found: ObjectLockState)
    requires
        holds_lock(
            decode,
            catalog.without_row(OBJECT_LOCKS@, key).row(OBJECT_LOCKS@, key),
            found,
        ),
    ensures
        found == unlocked(),
{
}

/// The high-water mark is never lowered, and it rises to a later observation.
pub proof fn law_mark_is_the_latest_time_observed(catalog: CatalogView, now: Timestamp)
    requires
        now.wf(),
    ensures
        clock_mark(clock_observed(catalog, now.micros())) == Some(
            match clock_mark(catalog) {
                Some(mark) if mark >= now.micros() => mark,
                _ => now.micros() as i64,
            },
        ),
{
    lemma_micros_fit(now);
}

/// A clock that ran forward and came back is refused: once a time has been
/// observed, an earlier one is trusted only within the tolerance.
pub proof fn law_clock_that_came_back_is_refused(
    catalog: CatalogView,
    ahead: Timestamp,
    back: Timestamp,
    tolerance_seconds: u32,
)
    requires
        ahead.wf(),
        back.micros() < ahead.micros() - tolerance_seconds * 1_000_000,
    ensures
        clock_behind(
            clock_mark(clock_observed(catalog, ahead.micros())),
            back.micros(),
            tolerance_seconds,
        ),
{
    lemma_micros_fit(ahead);
    law_mark_is_the_latest_time_observed(catalog, ahead);
}

/// Observing the same time again is accepted and changes nothing.
pub proof fn law_observing_again_changes_nothing(
    catalog: CatalogView,
    now: Timestamp,
    tolerance_seconds: u32,
)
    requires
        now.wf(),
        !clock_behind(clock_mark(catalog), now.micros(), tolerance_seconds),
    ensures
        ({
            let after = clock_observed(catalog, now.micros());
            &&& !clock_behind(clock_mark(after), now.micros(), tolerance_seconds)
            &&& clock_observed(after, now.micros()) == after
        }),
{
    lemma_micros_fit(now);
    law_mark_is_the_latest_time_observed(catalog, now);
}

/// A bypass never releases a legal hold or a compliance retention: what blocks
/// the removal without one blocks it with one.
pub proof fn law_bypass_releases_neither_hold_nor_compliance(
    state: ObjectLockState,
    release: LockRelease,
)
    requires
        state.legal_hold || (state.retention matches Some(retention) && retention.mode
            == RetentionMode::Compliance),
    ensures
        remaining_block(state, LockRelease { bypass_governance: true, ..release })
            == remaining_block(state, LockRelease { bypass_governance: false, ..release }),
        remaining_block(state, release) == state.block_at(release.observed_at),
{
}

/// A retained version cannot be removed before its date without a bypass.
pub proof fn law_retention_holds_until_its_date(
    retention: Retention,
    legal_hold: bool,
    release: LockRelease,
)
    requires
        release.observed_at.before(retention.retain_until),
        !release.bypass_governance,
    ensures
        remaining_block(ObjectLockState { retention: Some(retention), legal_hold }, release)
            is Some,
{
}

/// A governance retention on its own gives way to a bypass.
pub proof fn law_bypass_releases_governance(retention: Retention, release: LockRelease)
    requires
        retention.mode == RetentionMode::Governance,
        release.bypass_governance,
    ensures
        remaining_block(
            ObjectLockState { retention: Some(retention), legal_hold: false },
            release,
        ) is None,
{
}

/// A legal hold blocks removal on its own, whatever the retention and the clock.
pub proof fn law_legal_hold_blocks_removal(state: ObjectLockState, release: LockRelease)
    requires
        state.legal_hold,
    ensures
        remaining_block(state, release) == Some(DeletionBlock::LegalHold),
{
}

/// A version on which nothing is held, or whose retention has run out, can be
/// removed.
pub proof fn law_expired_retention_does_not_block(state: ObjectLockState, release: LockRelease)
    requires
        !state.legal_hold,
        state.retention matches Some(retention) ==> !release.observed_at.before(
            retention.retain_until,
        ),
    ensures
        remaining_block(state, release) is None,
{
}

/// The catalog with a named total changed.
pub open spec fn counter_adjusted(catalog: CatalogView, name: Seq<char>, delta: int) -> CatalogView {
    CatalogView {
        counters: catalog.counters.insert(
            (COUNTERS@, name),
            (counter_value(catalog, name) + delta) as u64,
        ),
        ..catalog
    }
}

/// Adding to a total and subtracting as much again gives back the total.
pub proof fn law_adjusting_back_restores_the_total(
    catalog: CatalogView,
    name: Seq<char>,
    delta: int,
)
    requires
        0 <= counter_value(catalog, name) + delta <= u64::MAX,
    ensures
        counter_value(counter_adjusted(catalog, name, delta), name) == counter_value(catalog, name)
            + delta,
        counter_value(
            counter_adjusted(counter_adjusted(catalog, name, delta), name, -delta),
            name,
        ) == counter_value(catalog, name),
{
}

/// A row is what the table holds under the key, if it holds anything.
pub proof fn law_row_is_what_the_table_holds(
    catalog: CatalogView,
    snapshot: SnapshotView,
    table: Seq<char>,
    key: Seq<u8>,
)
    ensures
        catalog.row(table, key) is Some <==> catalog.rows.dom().contains((table, key)),
        catalog.row(table, key) matches Some(row) ==> row == catalog.rows[(table, key)],
        snapshot.row(table, key) is Some <==> snapshot.rows.dom().contains((table, key)),
        snapshot.row(table, key) matches Some(row) ==> row == snapshot.rows[(table, key)],
{
}

/// Writing or dropping a row changes that row and nothing else.
pub proof fn law_one_row_changes(
    catalog: CatalogView,
    table: Seq<char>,
    key: Seq<u8>,
    value: Seq<u8>,
    other_table: Seq<char>,
    other_key: Seq<u8>,
)
    ensures
        catalog.with_row(table, key, value).row(table, key) == Some(value),
        catalog.without_row(table, key).row(table, key) is None,
        table != other_table || key != other_key ==> {
            &&& catalog.with_row(table, key, value).row(other_table, other_key) == catalog.row(
                other_table,
                other_key,
            )
            &&& catalog.without_row(table, key).row(other_table, other_key) == catalog.row(
                other_table,
                other_key,
            )
        },
        same_but_for_rows(catalog, catalog.with_row(table, key, value)),
        same_but_for_rows(catalog, catalog.without_row(table, key)),
{
}

/// Whether two catalogs agree on everything but the tables from bytes to bytes.
pub open spec fn same_but_for_rows(a: CatalogView, b: CatalogView) -> bool {
    a.names == b.names && a.counters == b.counters && a.clocks == b.clocks && a.flags == b.flags
}

/// Inserting a version writes two rows, its record and its place in the order;
/// removing it drops these two; every other row of every table stays.
pub proof fn law_version_changes_two_rows(
    catalog: CatalogView,
    id: VersionId,
    order_key: Seq<u8>,
    encoded: Seq<u8>,
    table: Seq<char>,
    key: Seq<u8>,
)
    ensures
        ({
            let inserted = version_inserted(catalog, id, order_key, encoded);
            let removed = version_removed(catalog, id, order_key);
            let record = table == VERSIONS@ && key == id.0@;
            let place = table == VERSION_ORDER@ && key == order_key;
            &&& record ==> inserted.row(table, key) == Some(encoded) && removed.row(table, key)
                is None
            &&& place ==> inserted.row(table, key) == Some(id.0@) && removed.row(table, key) is None
            &&& !record && !place ==> inserted.row(table, key) == catalog.row(table, key)
                && removed.row(table, key) == catalog.row(table, key)
            &&& same_but_for_rows(catalog, inserted) && same_but_for_rows(catalog, removed)
        }),
{
    lemma_schema();
}

/// Storing a bucket writes the same bytes under its identifier and its name, and
/// nothing else.
pub proof fn law_bucket_changes_two_entries(
    catalog: CatalogView,
    key: Seq<u8>,
    name: Seq<char>,
    encoded: Seq<u8>,
    table: Seq<char>,
    other_key: Seq<u8>,
    other_name: Seq<char>,
)
    ensures
        ({
            let stored = bucket_stored(catalog, key, name, encoded);
            let entry = table == BUCKET_NAMES@ && other_name == name;
            &&& stored.row(BUCKETS@, key) == Some(encoded)
            &&& table != BUCKETS@ || other_key != key ==> stored.row(table, other_key)
                == catalog.row(table, other_key)
            &&& lookup(stored.names, (BUCKET_NAMES@, name)) == Some(encoded)
            &&& !entry ==> lookup(stored.names, (table, other_name)) == lookup(
                catalog.names,
                (table, other_name),
            )
            &&& stored.counters == catalog.counters && stored.clocks == catalog.clocks
                && stored.flags == catalog.flags
        }),
{
}

/// A map holds what was put into it, and of other keys what it held before.
pub proof fn law_lookup_finds_what_is_there<K, V>(map: Map<K, V>, key: K, value: V, other: K)
    ensures
        lookup(map.insert(key, value), key) == Some(value),
        lookup(map.remove(key), key) is None,
        key != other ==> lookup(map.insert(key, value), other) == lookup(map, other) && lookup(
            map.remove(key),
            other,
        ) == lookup(map, other),
        lookup(map, key) is Some <==> map.dom().contains(key),
{
}

/// Bytes that were found, and the end of a range, are spoken of as they are.
pub proof fn law_found_bytes_are_the_bytes(row: Vec<u8>, end: &[u8])
    ensures
        bytes_view(Some(row)) == Some(row@),
        bytes_view(None) is None,
        bound_view(Some(end)) == Some(end@),
        bound_view(None) is None,
{
}

/// Clearing a null version takes the index entry of this key away where it names
/// this version, and touches nothing else.
pub proof fn law_clearing_touches_one_entry(
    catalog: CatalogView,
    key: Seq<u8>,
    id: VersionId,
    table: Seq<char>,
    other_key: Seq<u8>,
)
    ensures
        ({
            let after = null_cleared(catalog, key, id);
            &&& catalog.row(NULL_VERSIONS@, key) == Some(id.0@) ==> after.row(NULL_VERSIONS@, key)
                is None
            &&& catalog.row(NULL_VERSIONS@, key) != Some(id.0@) ==> after.row(NULL_VERSIONS@, key)
                == catalog.row(NULL_VERSIONS@, key)
            &&& table != NULL_VERSIONS@ || other_key != key ==> after.row(table, other_key)
                == catalog.row(table, other_key)
            &&& same_but_for_rows(catalog, after)
        }),
{
}

/// Leaving nothing current under a key drops its object and its marker, and
/// nothing else.
pub proof fn law_removing_current_drops_object_and_marker(
    catalog: CatalogView,
    key: Seq<u8>,
    table: Seq<char>,
    other_key: Seq<u8>,
)
    ensures
        ({
            let after = current_removed(catalog, key);
            &&& after.row(OBJECTS@, key) is None
            &&& after.row(MARKERS@, key) is None
            &&& (table != OBJECTS@ && table != MARKERS@) || other_key != key ==> after.row(
                table,
                other_key,
            ) == catalog.row(table, other_key)
            &&& same_but_for_rows(catalog, after)
        }),
{
}

/// An object is current among the objects, a delete marker among the markers.
pub proof fn law_objects_and_markers_have_their_tables(
    metadata: ObjectMetadata,
    marker: DeleteMarker,
)
    ensures
        current_table(ObjectVersionRecord::Object { metadata }) == OBJECTS@,
        current_table(ObjectVersionRecord::DeleteMarker { marker }) == MARKERS@,
{
}

/// Whether a decoder gives of a row's bytes what `meaning` says, and nothing else.
pub open spec fn means<T, D: FnOnce(Vec<u8>) -> Result<T, MetadataError>>(
    decode: D,
    meaning: spec_fn(Seq<u8>) -> Result<T, MetadataError>,
) -> bool {
    forall|bytes: Vec<u8>, outcome: Result<T, MetadataError>| #[trigger]
        call_ensures(decode, (bytes,), outcome) ==> outcome == meaning(bytes@)
}

/// What is read of a row is what the decoder makes of exactly the row's bytes; an
/// absent row gives nothing, or what stands in for it, without the decoder being
/// asked.
pub proof fn law_row_is_read_by_its_bytes<T, D: FnOnce(Vec<u8>) -> Result<T, MetadataError>>(
    decode: D,
    meaning: spec_fn(Seq<u8>) -> Result<T, MetadataError>,
    row: Seq<u8>,
    decoded: Result<T, MetadataError>,
    found: Result<Option<T>, MetadataError>,
    absent: Result<Option<T>, MetadataError>,
    fallback: T,
    filled: Result<T, MetadataError>,
    stood_in: Result<T, MetadataError>,
)
    requires
        means(decode, meaning),
        decodes(decode, row, decoded),
        decodes_found(decode, Some(row), found),
        decodes_found(decode, None, absent),
        found_or(decode, Some(row), fallback, filled),
        found_or(decode, None, fallback, stood_in),
    ensures
        decoded == meaning(row),
        found == match meaning(row) {
            Ok(value) => Ok(Some(value)),
            Err(error) => Err(error),
        },
        absent == Ok::<Option<T>, MetadataError>(None),
        filled == meaning(row),
        stood_in == Ok::<T, MetadataError>(fallback),
{
}

/// The lock of a version is what its row means; a version without a row holds
/// nothing.
pub proof fn law_lock_is_what_the_row_means<
    D: FnOnce(Vec<u8>) -> Result<ObjectLockState, MetadataError>,
>(
    decode: D,
    meaning: spec_fn(Seq<u8>) -> Result<ObjectLockState, MetadataError>,
    row: Seq<u8>,
    state: ObjectLockState,
    absent: ObjectLockState,
)
    requires
        means(decode, meaning),
        holds_lock(decode, Some(row), state),
        holds_lock(decode, None, absent),
    ensures
        meaning(row) == Ok::<_, MetadataError>(state),
        absent.retention is None && !absent.legal_hold,
{
}

/// The current version of a key is that of its object where there is one, else
/// that of its marker, else none.
pub proof fn law_current_version_is_what_the_rows_mean<
    O: FnOnce(Vec<u8>) -> Result<ObjectMetadata, MetadataError>,
    M: FnOnce(Vec<u8>) -> Result<DeleteMarker, MetadataError>,
>(
    decode_object: O,
    decode_marker: M,
    objects: spec_fn(Seq<u8>) -> Result<ObjectMetadata, MetadataError>,
    markers: spec_fn(Seq<u8>) -> Result<DeleteMarker, MetadataError>,
    object: Option<Seq<u8>>,
    marker: Option<Seq<u8>>,
    outcome: Result<Option<VersionId>, MetadataError>,
)
    requires
        means(decode_object, objects),
        means(decode_marker, markers),
        current_from(object, marker, decode_object, decode_marker, outcome),
    ensures
        object matches Some(row) ==> outcome == match objects(row) {
            Ok(metadata) => Ok(Some(metadata.version_id)),
            Err(error) => Err(error),
        },
        object is None ==> (marker matches Some(row) ==> outcome == match markers(row) {
            Ok(found) => Ok(Some(found.version_id)),
            Err(error) => Err(error),
        }),
        object is None && marker is None ==> outcome == Ok::<Option<VersionId>, MetadataError>(None),
{
}

/// A prefix has no row when no key of the table begins with it; the least key
/// under it is a key of the table that begins with it, and no other such key
/// comes before it.
pub proof fn law_least_key_under_a_prefix(
    catalog: CatalogView,
    table: Seq<char>,
    prefix: Seq<u8>,
    least: Seq<u8>,
    other: Seq<u8>,
)
    requires
        catalog.rows.dom().contains((table, other)),
        starts_with(other, prefix),
    ensures
        !none_with_prefix(catalog, table, prefix),
        least_with_prefix(catalog, table, prefix, least) ==> {
            &&& catalog.rows.dom().contains((table, least))
            &&& starts_with(least, prefix)
            &&& least == other || key_before(least, other)
        },
{
    assert(catalog.row(table, other) is Some);
    lemma_key_before_total(least, other);
}

/// Where no key of a table begins with a prefix, there is none under it.
pub proof fn law_nothing_under_a_prefix(catalog: CatalogView, table: Seq<char>, prefix: Seq<u8>)
    requires
        forall|key: Seq<u8>|
            #![trigger catalog.rows.dom().contains((table, key))]
            catalog.rows.dom().contains((table, key)) ==> !starts_with(key, prefix),
    ensures
        none_with_prefix(catalog, table, prefix),
{
    assert forall|other: Seq<u8>|
        #![trigger catalog.row(table, other)]
        catalog.row(table, other) is Some implies !starts_with(other, prefix) by {
        assert(catalog.rows.dom().contains((table, other)));
    }
}

/// The keys under a prefix are listed once each and in order: all of them, or
/// those up to some point, with none left out in between.
pub proof fn law_keys_under_a_prefix_are_listed_in_order(
    catalog: CatalogView,
    table: Seq<char>,
    prefix: Seq<u8>,
    all: Seq<Seq<u8>>,
    some: Seq<Seq<u8>>,
    i: int,
    j: int,
    key: Seq<u8>,
)
    requires
        keys_with_prefix(catalog, table, prefix, all),
        first_keys_with_prefix(catalog, table, prefix, some),
        0 <= i < j < all.len(),
        catalog.rows.dom().contains((table, key)),
        starts_with(key, prefix),
    ensures
        all.contains(key),
        all[i] != all[j] && key_before(all[i], all[j]),
        catalog.rows.dom().contains((table, all[i])) && starts_with(all[i], prefix),
        some.contains(key) || (forall|k: int|
            0 <= k < some.len() ==> key_before(#[trigger] some[k], key)),
        j < some.len() ==> {
            &&& key_before(some[i], some[j])
            &&& catalog.rows.dom().contains((table, some[i])) && starts_with(some[i], prefix)
        },
{
    assert(catalog.row(table, key) is Some);
    assert(catalog.row(table, all[i]) is Some);
    lemma_key_before_irreflexive(all[i]);
    if j < some.len() {
        assert(catalog.row(table, some[i]) is Some);
    }
}

/// A scan found something when its first step gave an entry, or an entry that
/// could not be read; it found nothing when its first step gave none. A scan that
/// did not begin has no answer.
pub proof fn law_scan_finds_what_its_first_step_gave<T>(entry: T, fault: Fault)
    ensures
        scan_occupied(Ok::<Option<T>, Fault>(Some(entry))) == Ok::<bool, Fault>(true),
        scan_occupied(Ok::<Option<T>, Fault>(None)) == Ok::<bool, Fault>(false),
        fault.stage is Entry ==> scan_occupied(Err::<Option<T>, Fault>(fault)) == Ok::<bool, Fault>(
            true,
        ),
        !(fault.stage is Entry) ==> scan_occupied(Err::<Option<T>, Fault>(fault)) == Err::<
            bool,
            Fault,
        >(fault),
{
}

/// A total is what its entry holds, and zero without one.
pub proof fn law_total_is_its_entry(catalog: CatalogView, name: Seq<char>)
    ensures
        catalog.counters.dom().contains((COUNTERS@, name)) ==> counter_value(catalog, name)
            == catalog.counters[(COUNTERS@, name)],
        !catalog.counters.dom().contains((COUNTERS@, name)) ==> counter_value(catalog, name) == 0,
{
}

/// The clock is trusted when there is no mark yet, or when it is at most so many
/// seconds behind the mark as the tolerance says, and not otherwise.
pub proof fn law_clock_is_trusted_within_the_tolerance(
    mark: i64,
    now: int,
    tolerance_seconds: u32,
)
    ensures
        !clock_behind(None, now, tolerance_seconds),
        clock_behind(Some(mark), now, tolerance_seconds) <==> mark - now > tolerance_seconds
            * 1_000_000,
        clock_advances(None, now),
        clock_advances(Some(mark), now) <==> mark < now,
{
}

/// Observing the clock touches the mark and nothing else.
pub proof fn law_observing_touches_the_mark_only(catalog: CatalogView, now: Timestamp)
    ensures
        ({
            let after = clock_observed(catalog, now.micros());
            &&& after.rows == catalog.rows && after.names == catalog.names && after.counters
                == catalog.counters && after.flags == catalog.flags
            &&& forall|table: Seq<char>, name: Seq<char>|
                #![trigger lookup(after.clocks, (table, name))]
                table != CLOCK@ || name != CLOCK_WATERMARK@ ==> lookup(
                    after.clocks,
                    (table, name),
                ) == lookup(catalog.clocks, (table, name))
            &&& clock_mark(after) == lookup(after.clocks, (CLOCK@, CLOCK_WATERMARK@))
        }),
{
}

/// Whether a version may be removed, told in seconds: a legal hold stands in the
/// way always. Without one, a retention stands in the way in every second before
/// the one it ends in, unless it is a governance retention and a bypass was
/// presented, and in no second after that one. Without a retention nothing does.
pub proof fn law_removal_is_allowed_by_the_second(state: ObjectLockState, release: LockRelease)
    ensures
        state.legal_hold ==> remaining_block(state, release) == Some(DeletionBlock::LegalHold),
        !state.legal_hold && state.retention is None ==> remaining_block(state, release) is None,
        !state.legal_hold ==> (state.retention matches Some(held) ==> {
            let now = release.observed_at;
            let released = held.mode is Governance && release.bypass_governance;
            &&& now.seconds() > held.retain_until.seconds() ==> remaining_block(state, release)
                is None
            &&& released ==> remaining_block(state, release) is None
            &&& !released && now.seconds() < held.retain_until.seconds() ==> remaining_block(
                state,
                release,
            ) == Some(DeletionBlock::Retained(held))
            &&& !released && now.seconds() == held.retain_until.seconds() ==> (remaining_block(
                state,
                release,
            ) == Some(DeletionBlock::Retained(held)) <==> now.nanos() < held.retain_until.nanos())
        }),
{
}

/// The error for an index entry without a record names both the operation and the
/// contradiction.
pub proof fn law_contradiction_is_named(error: MetadataError)
    requires
        contradicts(error),
    ensures
        error.during("read null version"@),
        error->reason@ == "inconsistent index"@,
{
}

/// What a record publishes is what its own encoder makes of its metadata or its
/// marker.
pub proof fn law_record_publishes_its_own_part<
    O: FnOnce(&ObjectMetadata) -> Result<Vec<u8>, MetadataError>,
    M: FnOnce(&DeleteMarker) -> Result<Vec<u8>, MetadataError>,
>(
    metadata: ObjectMetadata,
    marker: DeleteMarker,
    encode_object: O,
    encode_marker: M,
    objects: spec_fn(ObjectMetadata) -> Result<Vec<u8>, MetadataError>,
    markers: spec_fn(DeleteMarker) -> Result<Vec<u8>, MetadataError>,
    outcome: Result<Vec<u8>, MetadataError>,
)
    requires
        forall|value: ObjectMetadata, encoded: Result<Vec<u8>, MetadataError>| #[trigger]
            call_ensures(encode_object, (&value,), encoded) ==> encoded == objects(value),
        forall|value: DeleteMarker, encoded: Result<Vec<u8>, MetadataError>| #[trigger]
            call_ensures(encode_marker, (&value,), encoded) ==> encoded == markers(value),
    ensures
        publishes(
            ObjectVersionRecord::Object { metadata },
            encode_object,
            encode_marker,
            outcome,
        ) ==> outcome == objects(metadata),
        publishes(
            ObjectVersionRecord::DeleteMarker { marker },
            encode_object,
            encode_marker,
            outcome,
        ) ==> outcome == markers(marker),
{
}

/// An entry of a scan fails as its row's bytes do, or, where it could not be read,
/// with what the storage engine said.
pub proof fn law_entry_fails_for_its_own_reason<
    T,
    D: FnOnce(Vec<u8>) -> Result<T, MetadataError>,
>(
    decode: D,
    meaning: spec_fn(Seq<u8>) -> Result<T, MetadataError>,
    key: Vec<u8>,
    row: Vec<u8>,
    fault: Fault,
    error: MetadataError,
)
    requires
        means(decode, meaning),
    ensures
        entry_decodes::<T, D>(decode, Ok((key, row))) ==> meaning(row@) is Ok,
        !entry_decodes::<T, D>(decode, Err(fault)),
        row_decodes::<T, D>(decode, row@) ==> meaning(row@) is Ok,
        entry_fails::<T, D>(decode, Ok((key, row)), error) ==> meaning(row@) == Err::<T, _>(error),
        entry_fails::<T, D>(decode, Err(fault), error) ==> error.during("read part"@)
            && error->reason == fault.reason,
{
}

/// Listing stops at the first row that does not decode, with its error, every row
/// listed before it having decoded; or, all of them having decoded, at an entry
/// that could not be read.
pub proof fn law_listing_stops_at_the_first_failure<
    T,
    D: FnOnce(Vec<u8>) -> Result<T, MetadataError>,
>(
    catalog: CatalogView,
    table: Seq<char>,
    decode: D,
    meaning: spec_fn(Seq<u8>) -> Result<T, MetadataError>,
    keys: Seq<Seq<u8>>,
    error: MetadataError,
    i: int,
)
    requires
        means(decode, meaning),
        listing_stops::<T, D>(catalog, table, decode, keys, error),
    ensures
        0 <= i < keys.len() - 1 ==> meaning(catalog.row(table, keys[i])->0) is Ok,
        keys.len() == 0 ==> error.during("read part"@),
        keys.len() > 0 ==> {
            ||| meaning(catalog.row(table, keys.last())->0) == Err::<T, _>(error)
            ||| error.during("read part"@) && meaning(catalog.row(table, keys.last())->0) is Ok
        },
{
    if 0 <= i < keys.len() - 1 {
        assert(row_decodes::<T, D>(decode, catalog.row(table, keys[i])->0));
    }
}

/// A change of a bucket gets as far as writing only with the bucket that its row
/// means, changed as the change says; and is refused only for what one of these
/// steps gave.
pub proof fn law_bucket_is_changed_from_its_row<
    D: FnOnce(Vec<u8>) -> Result<Bucket, MetadataError>,
    F: FnOnce(Bucket) -> Result<Bucket, MetadataError>,
    E: FnOnce(&Bucket) -> Result<Vec<u8>, MetadataError>,
>(
    decode: D,
    update: F,
    encode: E,
    meaning: spec_fn(Seq<u8>) -> Result<Bucket, MetadataError>,
    changed: spec_fn(Bucket) -> Result<Bucket, MetadataError>,
    encoded: spec_fn(Bucket) -> Result<Vec<u8>, MetadataError>,
    row: Seq<u8>,
    error: MetadataError,
)
    requires
        means(decode, meaning),
        forall|bucket: Bucket, outcome: Result<Bucket, MetadataError>| #[trigger]
            call_ensures(update, (bucket,), outcome) ==> outcome == changed(bucket),
        forall|bucket: Bucket, outcome: Result<Vec<u8>, MetadataError>| #[trigger]
            call_ensures(encode, (&bucket,), outcome) ==> outcome == encoded(bucket),
    ensures
        update_ready(decode, update, encode, row) ==> {
            &&& meaning(row) is Ok
            &&& changed(meaning(row)->Ok_0) is Ok
            &&& encoded(changed(meaning(row)->Ok_0)->Ok_0) is Ok
        },
        update_refuses(decode, update, encode, row, error) ==> {
            ||| meaning(row) == Err::<Bucket, _>(error)
            ||| meaning(row) is Ok && changed(meaning(row)->Ok_0) == Err::<Bucket, _>(error)
            ||| meaning(row) is Ok && changed(meaning(row)->Ok_0) is Ok && encoded(
                changed(meaning(row)->Ok_0)->Ok_0,
            ) == Err::<Vec<u8>, _>(error)
        },
{
}

/// "Yes" is said of a bucket only where some upload's key begins with the bucket's
/// prefix, or where the storage engine did fail to read an entry of the scan over
/// the keys that begin with it. "No" is said only where no key does.
pub proof fn law_upload_is_one_of_this_bucket(
    tx: Transaction,
    prefix: Seq<u8>,
    outcome: Result<bool, MetadataError>,
)
    requires
        multipart_answer(tx, prefix, outcome),
    ensures
        outcome == Ok::<bool, MetadataError>(true) ==> {
            ||| exists|key: Seq<u8>|
                {
                    &&& #[trigger] tx@.rows.dom().contains((MULTIPART_ORDER@, key))
                    &&& starts_with(key, prefix)
                }
            ||| exists|end: Option<Seq<u8>>, fault: Fault|
                {
                    &&& #[trigger] tx.first_gives(MULTIPART_ORDER@, prefix, end, Err(fault))
                    &&& fault.stage is Entry
                    &&& forall|key: Seq<u8>| #[trigger]
                        within(key, prefix, end) <==> starts_with(key, prefix)
                }
        },
        outcome == Ok::<bool, MetadataError>(false) ==> forall|key: Seq<u8>|
            #![trigger tx@.rows.dom().contains((MULTIPART_ORDER@, key))]
            tx@.rows.dom().contains((MULTIPART_ORDER@, key)) ==> !starts_with(key, prefix),
{
    let first = choose|first: Result<Option<(Vec<u8>, Vec<u8>)>, Fault>|
        {
            &&& #[trigger] prefix_scan_gives(tx, MULTIPART_ORDER@, prefix, first)
            &&& match first {
                Ok(None) => outcome == Ok::<bool, MetadataError>(false) && none_with_prefix(
                    tx@,
                    MULTIPART_ORDER@,
                    prefix,
                ),
                Ok(Some((key, _))) => outcome == Ok::<bool, MetadataError>(true)
                    && least_with_prefix(tx@, MULTIPART_ORDER@, prefix, key@),
                Err(fault) => if fault.stage == Stage::Entry {
                    outcome == Ok::<bool, MetadataError>(true)
                } else {
                    outcome matches Err(error) && reports_fault(
                        "open multipart order"@,
                        "range multipart"@,
                        "range multipart"@,
                        fault,
                        error,
                    )
                },
            }
        };
    match first {
        Ok(Some((key, _))) => {
            assert(tx@.row(MULTIPART_ORDER@, key@) is Some);
            assert(tx@.rows.dom().contains((MULTIPART_ORDER@, key@)));
        },
        Ok(None) => {
            assert forall|key: Seq<u8>|
                #![trigger tx@.rows.dom().contains((MULTIPART_ORDER@, key))]
                tx@.rows.dom().contains((MULTIPART_ORDER@, key)) implies !starts_with(
                key,
                prefix,
            ) by {
                assert(tx@.row(MULTIPART_ORDER@, key) is Some);
            }
        },
        Err(fault) => {
            let end = choose|end: Option<Seq<u8>>| #[trigger]
                tx.first_gives(MULTIPART_ORDER@, prefix, end, first) && range_of_prefix(
                    prefix,
                    end,
                );
            assert(tx.first_gives(MULTIPART_ORDER@, prefix, end, Err(fault)));
            assert(range_of_prefix(prefix, end));
        },
    }
}

/// Where the first read in the range of a bucket's prefix succeeds, the answer is
/// whether some upload's key begins with the prefix, both ways.
pub proof fn law_readable_order_gives_the_true_answer(
    tx: Transaction,
    prefix: Seq<u8>,
    outcome: Result<bool, MetadataError>,
)
    requires
        multipart_answer(tx, prefix, outcome),
        forall|end: Option<Seq<u8>>, first: Result<Option<(Vec<u8>, Vec<u8>)>, Fault>| #[trigger]
            tx.first_gives(MULTIPART_ORDER@, prefix, end, first) ==> first is Ok,
    ensures
        outcome is Ok,
        outcome->Ok_0 <==> exists|key: Seq<u8>|
            {
                &&& #[trigger] tx@.rows.dom().contains((MULTIPART_ORDER@, key))
                &&& starts_with(key, prefix)
            },
{
    law_upload_is_one_of_this_bucket(tx, prefix, outcome);
}

/// The range of a prefix holds exactly the keys that have the prefix's bytes in
/// its places, so it holds no key of another prefix of the same length.
pub proof fn law_prefix_ranges_do_not_meet(
    prefix: Seq<u8>,
    end: Option<Seq<u8>>,
    other: Seq<u8>,
    key: Seq<u8>,
)
    requires
        range_of_prefix(prefix, end),
        prefix.len() == other.len(),
        prefix != other,
        key.len() >= prefix.len(),
        forall|i: int| 0 <= i < other.len() ==> #[trigger] key[i] == other[i],
    ensures
        !within(key, prefix, end),
{
    if within(key, prefix, end) {
        assert(starts_with(key, prefix));
        assert(key.take(prefix.len() as int) =~= other);
    }
}

/// What is reported of a fault is its own reason, under the name of the stage at
/// which it came.
pub proof fn law_fault_is_reported_as_it_was(
    open: Seq<char>,
    access: Seq<char>,
    entry: Seq<char>,
    fault: Fault,
    error: MetadataError,
)
    requires
        reports_fault(open, access, entry, fault, error),
    ensures
        error is Database,
        error->reason == fault.reason,
        fault.stage is Open ==> error.during(open),
        fault.stage is Access ==> error.during(access),
        fault.stage is Entry ==> error.during(entry),
{
}

/// A failure that is reported of a call is one that this very call can give: on
/// this transaction or snapshot, this table and these arguments, and with the
/// reason that the storage engine gave.
pub proof fn law_reported_failure_is_the_engines_own(
    tx: Transaction,
    snapshot: Snapshot,
    table: Seq<char>,
    start: Seq<u8>,
    end: Option<Seq<u8>>,
    key: Seq<u8>,
    value: Seq<u8>,
    name: Seq<char>,
    flag: u8,
    count: u64,
    mark: i64,
    open: Seq<char>,
    access: Seq<char>,
    error: MetadataError,
)
    ensures
        tx.open_fails(table, open, access, error) ==> exists|fault: Fault| #[trigger]
            tx.open_gives(table, Err(fault)) && error->reason == fault.reason,
        tx.get_fails(table, key, open, access, error) ==> exists|fault: Fault| #[trigger]
            tx.get_gives(table, key, Err(fault)) && error->reason == fault.reason,
        tx.range_fails(table, start, end, open, access, error) ==> exists|fault: Fault| #[trigger]
            tx.range_gives(table, start, end, Err(fault)) && error->reason == fault.reason,
        tx.insert_fails(table, key, value, open, access, error) ==> exists|fault: Fault| #[trigger]
            tx.insert_gives(table, key, value, Err(fault)) && error->reason == fault.reason,
        tx.remove_fails(table, key, open, access, error) ==> exists|fault: Fault| #[trigger]
            tx.remove_gives(table, key, Err(fault)) && error->reason == fault.reason,
        tx.insert_name_fails(table, name, value, open, access, error) ==> exists|fault: Fault| #[trigger]
            tx.insert_name_gives(table, name, value, Err(fault)) && error->reason == fault.reason,
        tx.insert_flag_fails(table, key, flag, open, access, error) ==> exists|fault: Fault| #[trigger]
            tx.insert_flag_gives(table, key, flag, Err(fault)) && error->reason == fault.reason,
        tx.counter_fails(table, name, open, access, error) ==> exists|fault: Fault| #[trigger]
            tx.counter_gives(table, name, Err(fault)) && error->reason == fault.reason,
        tx.insert_counter_fails(table, name, count, open, access, error) ==> exists|fault: Fault| #[trigger]
            tx.insert_counter_gives(table, name, count, Err(fault)) && error->reason == fault.reason,
        tx.clock_fails(table, name, open, access, error) ==> exists|fault: Fault| #[trigger]
            tx.clock_gives(table, name, Err(fault)) && error->reason == fault.reason,
        tx.insert_clock_fails(table, name, mark, open, access, error) ==> exists|fault: Fault| #[trigger]
            tx.insert_clock_gives(table, name, mark, Err(fault)) && error->reason == fault.reason,
        snapshot.get_fails(table, key, open, access, error) ==> exists|fault: Fault| #[trigger]
            snapshot.get_gives(table, key, Err(fault)) && error->reason == fault.reason,
        snapshot.counter_fails(table, name, open, access, error) ==> exists|fault: Fault| #[trigger]
            snapshot.counter_gives(table, name, Err(fault)) && error->reason == fault.reason,
{
}

} // verus!
