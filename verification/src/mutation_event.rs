//! The storage event a committed mutation owes its subscribers.
//!
//! The intent to publish is written inside the transaction that commits the
//! mutation, with the identifier the event will carry. A crash after that
//! leaves a durable row describing an event that is owed, and a republish is
//! the same event rather than a second one.

use vstd::prelude::*;

use crate::time::Timestamp;
use crate::types::{EventId, VersionId};

verus! {

/// Stable storage-event names intended for integrations.
///
/// Part of the published webhook contract, so the spelling of each variant on
/// the wire is fixed.
#[derive(Debug, Clone, Copy, PartialEq, Eq, Structural)]
pub enum StorageEventType {
    /// A bucket was created.
    BucketCreated,
    /// A bucket was deleted.
    BucketDeleted,
    /// An object was created.
    ObjectCreated,
    /// An object was updated.
    ObjectUpdated,
    /// An object was deleted.
    ObjectDeleted,
    /// A historical version was promoted back to current.
    ObjectRestored,
    /// A multipart upload was completed.
    MultipartCompleted,
    /// A multipart upload was aborted.
    MultipartAborted,
}

impl StorageEventType {
    /// The name carried on the wire.
    pub open spec fn wire_name(self) -> Seq<char> {
        match self {
            StorageEventType::BucketCreated => "bucket.created"@,
            StorageEventType::BucketDeleted => "bucket.deleted"@,
            StorageEventType::ObjectCreated => "object.created"@,
            StorageEventType::ObjectUpdated => "object.updated"@,
            StorageEventType::ObjectDeleted => "object.deleted"@,
            StorageEventType::ObjectRestored => "object.restored"@,
            StorageEventType::MultipartCompleted => "multipart.completed"@,
            StorageEventType::MultipartAborted => "multipart.aborted"@,
        }
    }

    /// Returns the wire name carried in the delivery header.
    pub fn as_str(self) -> (name: &'static str)
        ensures
            name@ == self.wire_name(),
    {
        match self {
            StorageEventType::BucketCreated => "bucket.created",
            StorageEventType::BucketDeleted => "bucket.deleted",
            StorageEventType::ObjectCreated => "object.created",
            StorageEventType::ObjectUpdated => "object.updated",
            StorageEventType::ObjectDeleted => "object.deleted",
            StorageEventType::ObjectRestored => "object.restored",
            StorageEventType::MultipartCompleted => "multipart.completed",
            StorageEventType::MultipartAborted => "multipart.aborted",
        }
    }
}

/// Whether JSON writes this text as it is: no quotation mark, no backslash, no
/// control character.
pub open spec fn plain(text: Seq<char>) -> bool {
    forall|i: int|
        0 <= i < text.len() ==> (#[trigger] text[i]) != '"' && text[i] != '\\' && text[i] >= ' '
}

/// A text between quotation marks.
pub open spec fn quoted(text: Seq<char>) -> Seq<char> {
    seq!['"'] + text + seq!['"']
}

/// Calls `to_string` of `serde_json` on a text.
///
/// A text that holds nothing to be escaped comes out between quotation marks. Of
/// other texts nothing is claimed.
#[verifier::external_body]
fn json_text(text: &str) -> (json: String)
    requires
        plain(text@),
    ensures
        json@ == quoted(text@),
{
    serde_json::to_string(text).unwrap()
}

fn spells(text: &String, name: &str) -> (same: bool)
    ensures
        same == (text@ == name@),
{
    *text == name.to_string()
}

proof fn lemma_wire_names_are_plain(kind: StorageEventType)
    ensures
        plain(kind.wire_name()),
{
    reveal_strlit("bucket.created");
    reveal_strlit("bucket.deleted");
    reveal_strlit("object.created");
    reveal_strlit("object.updated");
    reveal_strlit("object.deleted");
    reveal_strlit("object.restored");
    reveal_strlit("multipart.completed");
    reveal_strlit("multipart.aborted");
    assert(plain("bucket.created"@));
    assert(plain("bucket.deleted"@));
    assert(plain("object.created"@));
    assert(plain("object.updated"@));
    assert(plain("object.deleted"@));
    assert(plain("object.restored"@));
    assert(plain("multipart.completed"@));
    assert(plain("multipart.aborted"@));
}

impl StorageEventType {
    /// Returns the type as JSON: the very name that the delivery header carries,
    /// in quotation marks.
    pub fn to_json(self) -> (json: String)
        ensures
            json@ == quoted(self.wire_name()),
    {
        proof {
            lemma_wire_names_are_plain(self);
        }
        json_text(self.as_str())
    }

    /// Returns the type with this name on the wire, if there is one.
    pub fn from_wire_name(name: &String) -> (kind: Option<StorageEventType>)
        ensures
            match kind {
                Some(kind) => name@ == kind.wire_name(),
                None => forall|other: StorageEventType| name@ != #[trigger] other.wire_name(),
            },
    {
        let kind = if spells(name, "bucket.created") {
            StorageEventType::BucketCreated
        } else if spells(name, "bucket.deleted") {
            StorageEventType::BucketDeleted
        } else if spells(name, "object.created") {
            StorageEventType::ObjectCreated
        } else if spells(name, "object.updated") {
            StorageEventType::ObjectUpdated
        } else if spells(name, "object.deleted") {
            StorageEventType::ObjectDeleted
        } else if spells(name, "object.restored") {
            StorageEventType::ObjectRestored
        } else if spells(name, "multipart.completed") {
            StorageEventType::MultipartCompleted
        } else if spells(name, "multipart.aborted") {
            StorageEventType::MultipartAborted
        } else {
            return None;
        };
        Some(kind)
    }
}

/// The delivery header and the serialized type agree, and both tell the event
/// types apart.
pub proof fn law_serialized_name_is_the_wire_name(a: StorageEventType, b: StorageEventType)
    ensures
        quoted(a.wire_name()).subrange(1, quoted(a.wire_name()).len() - 1) == a.wire_name(),
        quoted(a.wire_name()) == quoted(b.wire_name()) ==> a == b,
{
    assert(quoted(a.wire_name()).subrange(1, quoted(a.wire_name()).len() - 1) =~= a.wire_name());
    assert(quoted(b.wire_name()).subrange(1, quoted(b.wire_name()).len() - 1) =~= b.wire_name());
    if quoted(a.wire_name()) == quoted(b.wire_name()) {
        law_wire_names_are_distinct(a, b);
    }
}

/// A subscriber can tell the event types apart by their names.
pub proof fn law_wire_names_are_distinct(a: StorageEventType, b: StorageEventType)
    requires
        a.wire_name() == b.wire_name(),
    ensures
        a == b,
{
    reveal_strlit("bucket.created");
    reveal_strlit("bucket.deleted");
    reveal_strlit("object.created");
    reveal_strlit("object.updated");
    reveal_strlit("object.deleted");
    reveal_strlit("object.restored");
    reveal_strlit("multipart.completed");
    reveal_strlit("multipart.aborted");
    assert("bucket.created"@.len() == 14 && "bucket.created"@[0] == 'b' && "bucket.created"@[7] == 'c');
    assert("bucket.deleted"@.len() == 14 && "bucket.deleted"@[0] == 'b' && "bucket.deleted"@[7] == 'd');
    assert("object.created"@.len() == 14 && "object.created"@[0] == 'o' && "object.created"@[7] == 'c');
    assert("object.updated"@.len() == 14 && "object.updated"@[0] == 'o' && "object.updated"@[7] == 'u');
    assert("object.deleted"@.len() == 14 && "object.deleted"@[0] == 'o' && "object.deleted"@[7] == 'd');
    assert("object.restored"@.len() == 15 && "object.restored"@[0] == 'o' && "object.restored"@[7] == 'r');
    assert("multipart.completed"@.len() == 19 && "multipart.completed"@[0] == 'm' && "multipart.completed"@[7] == 'r');
    assert("multipart.aborted"@.len() == 17 && "multipart.aborted"@[0] == 'm' && "multipart.aborted"@[7] == 'r');
    assert(a.wire_name().len() == b.wire_name().len());
    assert(a.wire_name()[0] == b.wire_name()[0]);
    assert(a.wire_name()[7] == b.wire_name()[7]);
}

/// Why a version was written.
///
/// The catalog cannot tell a copy from a restore from the assembly of a
/// multipart upload: all three publish a version and look identical once they
/// arrive. The caller knows, so it says, and the event a subscriber receives
/// keeps describing what actually happened.
#[derive(Debug, Clone, Copy, PartialEq, Eq, Structural)]
pub enum WriteOrigin {
    /// An ordinary upload.
    Direct,
    /// A server-side copy.
    Copy,
    /// The object a multipart upload assembled.
    MultipartCompletion,
    /// A historical version promoted back to current.
    Restore,
}

impl WriteOrigin {
    /// The name carried on a command.
    pub open spec fn name(self) -> Seq<char> {
        match self {
            WriteOrigin::Direct => "direct"@,
            WriteOrigin::Copy => "copy"@,
            WriteOrigin::MultipartCompletion => "multipart_completion"@,
            WriteOrigin::Restore => "restore"@,
        }
    }

    /// Returns the name carried on a command.
    pub fn as_str(self) -> (name: &'static str)
        ensures
            name@ == self.name(),
    {
        match self {
            WriteOrigin::Direct => "direct",
            WriteOrigin::Copy => "copy",
            WriteOrigin::MultipartCompletion => "multipart_completion",
            WriteOrigin::Restore => "restore",
        }
    }

    /// Returns the origin that a command states. A command that states none, as
    /// those written before origins existed, is an ordinary write; a name that
    /// is no origin's is refused.
    pub fn stated(name: Option<&String>) -> (origin: Option<WriteOrigin>)
        ensures
            match name {
                None => origin == Some(WriteOrigin::Direct),
                Some(text) => match origin {
                    Some(origin) => text@ == origin.name(),
                    None => forall|other: WriteOrigin| text@ != #[trigger] other.name(),
                },
            },
    {
        let text = match name {
            Some(text) => text,
            None => {
                return Some(WriteOrigin::default());
            },
        };
        let origin = if spells(text, "direct") {
            WriteOrigin::Direct
        } else if spells(text, "copy") {
            WriteOrigin::Copy
        } else if spells(text, "multipart_completion") {
            WriteOrigin::MultipartCompletion
        } else if spells(text, "restore") {
            WriteOrigin::Restore
        } else {
            return None;
        };
        Some(origin)
    }
}

impl Default for WriteOrigin {
    /// A write whose origin was not stated is an ordinary one.
    fn default() -> (origin: WriteOrigin)
        ensures
            origin == WriteOrigin::Direct,
    {
        WriteOrigin::Direct
    }
}

/// One storage event a committed mutation owes, as recorded in the catalog.
///
/// The `sequence` is allocated inside the committing transaction, so the order
/// of these rows is commit order, which is the order subscribers see, and the
/// order a resumed drain continues from.
#[derive(Debug, Clone, PartialEq, Eq)]
pub struct MutationEvent {
    /// Position in commit order.
    pub sequence: u64,
    /// The identifier the event will carry, fixed at commit time, so that a
    /// drain interrupted and resumed republishes the same event.
    pub event_id: EventId,
    /// What happened.
    pub event_type: StorageEventType,
    /// When the mutation committed.
    pub occurred_at: Timestamp,
    /// Bucket name, as a subscriber knows it.
    pub bucket: String,
    /// Object key, for events that name one.
    pub key: Option<String>,
    /// Version the event refers to, when it refers to one.
    pub version_id: Option<VersionId>,
    /// Object size, for events that publish bytes.
    pub size: Option<u64>,
}

} // verus!
