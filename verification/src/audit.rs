//! The audit record of an exercised governance bypass.

use vstd::prelude::*;
use vstd::string::*;

use crate::time::Timestamp;
use crate::types::{ObjectKey, VersionId};

verus! {

/// Identifies an audit record.
#[derive(Debug, Clone, Copy, PartialEq, Eq)]
pub struct AuditEventId(pub [u8; 16]);

/// How the audited operation ended.
#[derive(Debug, Clone, Copy, PartialEq, Eq, Structural)]
pub enum AuditResult {
    /// It was carried out.
    Success,
    /// It was refused.
    Denied,
}

/// One record of the durable audit trail.
#[derive(Debug, Clone, PartialEq, Eq)]
pub struct AuditEvent {
    /// Identifier of the record.
    pub event_id: AuditEventId,
    /// When it was made.
    pub timestamp: Timestamp,
    /// The request it belongs to, if one is known.
    pub request_id: Option<String>,
    /// Who acted.
    pub principal: String,
    /// The credential used; never recorded for a bypass.
    pub credential_id: Option<String>,
    /// Where the request came from, if known.
    pub source_ip: Option<String>,
    /// What was done.
    pub operation: String,
    /// To what it was done.
    pub resource: String,
    /// How it ended.
    pub result: AuditResult,
    /// Further facts by name, in the order of their names.
    pub metadata: Vec<(String, String)>,
}

/// Everything a bypass record says of what was done.
#[derive(Debug, Clone, PartialEq, Eq)]
pub struct BypassNote {
    /// Who exercised the bypass.
    pub principal: String,
    /// What was done.
    pub operation: &'static str,
    /// The bucket it was done in.
    pub bucket: String,
    /// The key it was done to.
    pub key: ObjectKey,
    /// The version it was done to.
    pub version: VersionId,
    /// How it ended.
    pub result: AuditResult,
}

/// Whether a record says what a bypass note says, names the version by the
/// given text, and carries no credential.
pub open spec fn records(event: AuditEvent, note: BypassNote, version_text: Seq<char>) -> bool {
    &&& event.principal@ == note.principal@
    &&& event.operation@ == note.operation@
    &&& event.resource@ == "bucket:"@ + note.bucket@ + "/"@ + note.key.0@
    &&& event.result == note.result
    &&& event.request_id is None
    &&& event.credential_id is None
    &&& event.source_ip is None
    &&& event.metadata@.len() == 2
    &&& event.metadata@[0].0@ == "bypass"@
    &&& event.metadata@[0].1@ == "governance"@
    &&& event.metadata@[1].0@ == "version_id"@
    &&& event.metadata@[1].1@ == version_text
}

/// Builds the audit record of an exercised governance bypass.
///
/// How an identifier is written out is the caller's: `version_text` names the
/// version the note is about.
pub fn bypass_event(
    note: &BypassNote,
    event_id: AuditEventId,
    timestamp: Timestamp,
    version_text: String,
) -> (event: AuditEvent)
    ensures
        event.event_id == event_id,
        event.timestamp == timestamp,
        records(event, *note, version_text@),
{
    let mut metadata: Vec<(String, String)> = Vec::new();
    metadata.push(("bypass".to_string(), "governance".to_string()));
    metadata.push(("version_id".to_string(), version_text));
    let mut resource: String = "bucket:".to_string();
    resource.append(note.bucket.as_str());
    resource.append("/");
    resource.append(note.key.0.as_str());
    AuditEvent {
        event_id,
        timestamp,
        request_id: None,
        principal: note.principal.clone(),
        credential_id: None,
        source_ip: None,
        operation: note.operation.to_string(),
        resource,
        result: note.result,
        metadata,
    }
}

/// What a bypass record says, field by field: who, what, to which key of which
/// bucket, how it ended, that it was a governance bypass and of which version;
/// and it holds neither a request, a credential nor an address.
pub proof fn law_record_says_what_happened(event: AuditEvent, note: BypassNote, text: Seq<char>)
    requires
        records(event, note, text),
    ensures
        event.principal@ == note.principal@,
        event.operation@ == note.operation@,
        event.result == note.result,
        event.request_id is None && event.credential_id is None && event.source_ip is None,
        event.resource@.len() == 8 + note.bucket@.len() + note.key.0@.len(),
        event.resource@.take(7) == "bucket:"@,
        event.resource@.subrange(7, 7 + note.bucket@.len() as int) == note.bucket@,
        event.resource@[7 + note.bucket@.len() as int] == '/',
        event.resource@.skip(8 + note.bucket@.len() as int) == note.key.0@,
        event.metadata@.len() == 2,
        event.metadata@[0].0@ == "bypass"@ && event.metadata@[0].1@ == "governance"@,
        event.metadata@[1].0@ == "version_id"@ && event.metadata@[1].1@ == text,
{
    reveal_strlit("bucket:");
    reveal_strlit("/");
    assert(event.resource@.take(7) =~= "bucket:"@);
    assert(event.resource@.subrange(7, 7 + note.bucket@.len() as int) =~= note.bucket@);
    assert(event.resource@.skip(8 + note.bucket@.len() as int) =~= note.key.0@);
}

} // verus!
