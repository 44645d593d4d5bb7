//! The tables of the catalog.

use vstd::prelude::*;

verus! {

/// Buckets by identifier.
pub const BUCKETS: &'static str = "buckets.v1";

/// Buckets by name.
pub const BUCKET_NAMES: &'static str = "bucket-names.v1";

/// What each bucket holds in total.
pub const BUCKET_USAGE: &'static str = "bucket-usage.v1";

/// Version records by version.
pub const VERSIONS: &'static str = "versions.v1";

/// Versions in the order of their key's history, newest first.
pub const VERSION_ORDER: &'static str = "version-order.v1";

/// The null version of each object that has one.
pub const NULL_VERSIONS: &'static str = "null-versions.v1";

/// Current objects.
pub const OBJECTS: &'static str = "objects.v1";

/// Current delete markers.
pub const MARKERS: &'static str = "markers.v1";

/// Uploaded parts, by upload.
pub const PARTS: &'static str = "parts.v1";

/// Multipart uploads, by bucket.
pub const MULTIPART_ORDER: &'static str = "multipart-order.v1";

/// Object Lock state by version; a version without an entry is unlocked.
pub const OBJECT_LOCKS: &'static str = "object-locks.v1";

/// Payloads that wait to be removed.
pub const CLEANUP: &'static str = "cleanup.v1";

/// Named totals.
pub const COUNTERS: &'static str = "counters.v1";

/// The observed-time high-water mark.
pub const CLOCK: &'static str = "clock.v1";

/// The entry of the clock table that holds the mark.
pub const CLOCK_WATERMARK: &'static str = "watermark";

/// The tables keyed by bytes and holding bytes.
pub open spec fn byte_tables() -> Seq<Seq<char>> {
    seq![
        BUCKETS@,
        BUCKET_USAGE@,
        VERSIONS@,
        VERSION_ORDER@,
        NULL_VERSIONS@,
        OBJECTS@,
        MARKERS@,
        PARTS@,
        MULTIPART_ORDER@,
        OBJECT_LOCKS@,
    ]
}

/// No two of these tables share a name.
pub proof fn lemma_byte_tables_differ()
    ensures
        byte_tables().no_duplicates(),
{
    reveal_strlit("buckets.v1");
    reveal_strlit("bucket-usage.v1");
    reveal_strlit("versions.v1");
    reveal_strlit("version-order.v1");
    reveal_strlit("null-versions.v1");
    reveal_strlit("objects.v1");
    reveal_strlit("markers.v1");
    reveal_strlit("parts.v1");
    reveal_strlit("multipart-order.v1");
    reveal_strlit("object-locks.v1");
    assert forall|i: int, j: int|
        0 <= i < byte_tables().len() && 0 <= j < byte_tables().len() && i
            != j implies byte_tables()[i] != byte_tables()[j] by {
        assert(byte_tables()[i].len() != byte_tables()[j].len() || byte_tables()[i][0]
            != byte_tables()[j][0]);
    }
}

/// Every table has a name, and the tables that one operation reads or writes
/// together differ.
pub proof fn lemma_schema()
    ensures
        BUCKETS@.len() > 0,
        BUCKET_NAMES@.len() > 0,
        BUCKET_USAGE@.len() > 0,
        VERSIONS@.len() > 0,
        VERSION_ORDER@.len() > 0,
        NULL_VERSIONS@.len() > 0,
        OBJECTS@.len() > 0,
        MARKERS@.len() > 0,
        PARTS@.len() > 0,
        MULTIPART_ORDER@.len() > 0,
        OBJECT_LOCKS@.len() > 0,
        CLEANUP@.len() > 0,
        COUNTERS@.len() > 0,
        CLOCK@.len() > 0,
        VERSIONS@ != VERSION_ORDER@,
        VERSIONS@ != NULL_VERSIONS@,
        VERSION_ORDER@ != NULL_VERSIONS@,
        OBJECTS@ != MARKERS@,
{
    reveal_strlit("buckets.v1");
    reveal_strlit("bucket-names.v1");
    reveal_strlit("bucket-usage.v1");
    reveal_strlit("versions.v1");
    reveal_strlit("version-order.v1");
    reveal_strlit("null-versions.v1");
    reveal_strlit("objects.v1");
    reveal_strlit("markers.v1");
    reveal_strlit("parts.v1");
    reveal_strlit("multipart-order.v1");
    reveal_strlit("object-locks.v1");
    reveal_strlit("cleanup.v1");
    reveal_strlit("counters.v1");
    reveal_strlit("clock.v1");
    lemma_byte_tables_differ();
    let tables = byte_tables();
    assert(tables[2] == VERSIONS@ && tables[3] == VERSION_ORDER@ && tables[4] == NULL_VERSIONS@);
    assert(tables[5] == OBJECTS@ && tables[6] == MARKERS@);
}

} // verus!
