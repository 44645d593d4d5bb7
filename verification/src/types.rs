//! Identifiers and records of the catalog, as far as its rules read them.

use vstd::prelude::*;

use crate::retention::ObjectLockConfiguration;

verus! {

/// Identifies a bucket.
#[derive(Debug, Clone, Copy, PartialEq, Eq)]
pub struct BucketId(pub [u8; 16]);

/// Identifies an object's payload.
#[derive(Debug, Clone, Copy, PartialEq, Eq)]
pub struct ObjectId(pub [u8; 16]);

/// Identifies a version of an object.
#[derive(Debug, Clone, Copy, PartialEq, Eq)]
pub struct VersionId(pub [u8; 16]);

/// Identifies a multipart upload.
#[derive(Debug, Clone, Copy, PartialEq, Eq)]
pub struct UploadId(pub [u8; 16]);

/// Identifies a storage event.
#[derive(Debug, Clone, Copy, PartialEq, Eq)]
pub struct EventId(pub [u8; 16]);

/// The name of an object within its bucket.
#[derive(Debug, Clone, PartialEq, Eq)]
pub struct ObjectKey(pub String);

/// A bucket, as far as the catalog's rules read it.
#[derive(Debug, Clone, PartialEq, Eq)]
pub struct Bucket {
    /// Identifier, stable over renames.
    pub id: BucketId,
    /// Name, as clients know it.
    pub name: String,
    /// Object Lock configuration; absent where Object Lock was never enabled.
    pub object_lock: Option<ObjectLockConfiguration>,
}

/// The metadata of an object version.
#[derive(Debug, Clone, PartialEq, Eq)]
pub struct ObjectMetadata {
    /// The version described.
    pub version_id: VersionId,
    /// The bucket it lies in.
    pub bucket_id: BucketId,
    /// Its key within the bucket.
    pub key: ObjectKey,
}

/// A version that records a deletion.
#[derive(Debug, Clone, PartialEq, Eq)]
pub struct DeleteMarker {
    /// The version described.
    pub version_id: VersionId,
    /// The bucket it lies in.
    pub bucket_id: BucketId,
    /// Its key within the bucket.
    pub key: ObjectKey,
}

/// One entry of an object's history.
#[derive(Debug, Clone, PartialEq, Eq)]
pub enum ObjectVersionRecord {
    /// A version with a payload.
    Object {
        /// What the version is.
        metadata: ObjectMetadata,
    },
    /// A version that deletes.
    DeleteMarker {
        /// What the version is.
        marker: DeleteMarker,
    },
}

impl ObjectVersionRecord {
    /// The version this entry describes.
    pub open spec fn id(self) -> VersionId {
        match self {
            ObjectVersionRecord::Object { metadata } => metadata.version_id,
            ObjectVersionRecord::DeleteMarker { marker } => marker.version_id,
        }
    }

    /// Returns the version this entry describes.
    pub fn version_id(&self) -> (id: VersionId)
        ensures
            id == self.id(),
    {
        match self {
            ObjectVersionRecord::Object { metadata } => metadata.version_id,
            ObjectVersionRecord::DeleteMarker { marker } => marker.version_id,
        }
    }
}

/// Compares two fixed-width byte strings.
pub fn bytes_equal<const N: usize>(left: &[u8; N], right: &[u8; N]) -> (equal: bool)
    ensures
        equal == (*left == *right),
{
    let mut i: usize = 0;
    while i < N
        invariant
            i <= N,
            forall|j: int| 0 <= j < i ==> left@[j] == right@[j],
        decreases N - i,
    {
        if left[i] != right[i] {
            assert(left@ != right@);
            return false;
        }
        i += 1;
    }
    assert(*left =~= *right);
    true
}

/// An entry of a history is about the version that its metadata or its marker
/// names.
pub proof fn law_entry_is_about_its_version(metadata: ObjectMetadata, marker: DeleteMarker)
    ensures
        (ObjectVersionRecord::Object { metadata }).id().0@ == metadata.version_id.0@,
        (ObjectVersionRecord::DeleteMarker { marker }).id().0@ == marker.version_id.0@,
{
}

} // verus!
