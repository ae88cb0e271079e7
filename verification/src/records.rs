//! Sync record submissions.
use vstd::prelude::*;

use crate::kinds::SyncRecordType;

verus! {

/// Folder Object revision sync submission after crypto/signature validation.
#[derive(Debug, Clone, PartialEq, Eq)]
pub struct FolderObjectRevisionSyncRecord {
    pub record_event_id: String,
    pub folder_id: String,
    pub object_id: String,
    pub revision: u64,
    pub base_revision: Option<u64>,
    pub actor_npub: String,
    pub client_created_at: String,
    pub payload_json: String,
    pub record_event_kind: u16,
}

/// Folder Object tombstone sync submission after crypto/signature validation.
#[derive(Debug, Clone, PartialEq, Eq)]
pub struct FolderObjectTombstoneSyncRecord {
    pub record_event_id: String,
    pub folder_id: String,
    pub object_id: String,
    pub revision: u64,
    pub base_revision: u64,
    pub actor_npub: String,
    pub client_created_at: String,
    pub payload_json: String,
    pub record_event_kind: u16,
}

/// Non-object control record sync submission.
#[derive(Debug, Clone, PartialEq, Eq)]
pub struct ControlSyncRecord {
    pub record_event_id: String,
    pub record_type: SyncRecordType,
    pub folder_id: Option<String>,
    pub actor_npub: String,
    pub client_created_at: String,
    pub payload_json: String,
    pub record_event_kind: u16,
}

/// Sync record submission.
#[derive(Debug, Clone, PartialEq, Eq)]
pub enum SyncRecordInput {
    FolderObjectRevision(FolderObjectRevisionSyncRecord),
    FolderObjectTombstone(FolderObjectTombstoneSyncRecord),
    Control(ControlSyncRecord),
}

/// Result of accepting or retrying a sync record.
#[derive(Debug, Clone, Copy, PartialEq, Eq, Structural)]
pub struct SubmitRecordOutcome {
    /// Brain-scoped sequence.
    pub sequence: u64,
    /// True when this event id was already accepted.
    pub duplicate: bool,
}

impl SyncRecordInput {
    pub open spec fn spec_record_type(self) -> SyncRecordType {
        match self {
            SyncRecordInput::FolderObjectRevision(_) => SyncRecordType::FolderObjectRevision,
            SyncRecordInput::FolderObjectTombstone(_) => SyncRecordType::FolderObjectTombstone,
            SyncRecordInput::Control(record) => record.record_type,
        }
    }

    pub open spec fn spec_folder_id(self) -> Option<String> {
        match self {
            SyncRecordInput::FolderObjectRevision(record) => Some(record.folder_id),
            SyncRecordInput::FolderObjectTombstone(record) => Some(record.folder_id),
            SyncRecordInput::Control(record) => record.folder_id,
        }
    }

    pub open spec fn spec_revision(self) -> Option<u64> {
        match self {
            SyncRecordInput::FolderObjectRevision(record) => Some(record.revision),
            SyncRecordInput::FolderObjectTombstone(record) => Some(record.revision),
            SyncRecordInput::Control(_) => None,
        }
    }

    pub fn record_event_id(&self) -> (r: &str)
        ensures
            r@ == match self {
                SyncRecordInput::FolderObjectRevision(record) => record.record_event_id@,
                SyncRecordInput::FolderObjectTombstone(record) => record.record_event_id@,
                SyncRecordInput::Control(record) => record.record_event_id@,
            },
    {
        match self {
            SyncRecordInput::FolderObjectRevision(record) => record.record_event_id.as_str(),
            SyncRecordInput::FolderObjectTombstone(record) => record.record_event_id.as_str(),
            SyncRecordInput::Control(record) => record.record_event_id.as_str(),
        }
    }

    pub fn record_type(&self) -> (r: SyncRecordType)
        ensures
            r == self.spec_record_type(),
    {
        match self {
            SyncRecordInput::FolderObjectRevision(_) => SyncRecordType::FolderObjectRevision,
            SyncRecordInput::FolderObjectTombstone(_) => SyncRecordType::FolderObjectTombstone,
            SyncRecordInput::Control(record) => record.record_type,
        }
    }

    pub fn folder_id(&self) -> (r: Option<&String>)
        ensures
            match r {
                Some(f) => self.spec_folder_id() == Some(*f),
                None => self.spec_folder_id() is None,
            },
    {
        match self {
            SyncRecordInput::FolderObjectRevision(record) => Some(&record.folder_id),
            SyncRecordInput::FolderObjectTombstone(record) => Some(&record.folder_id),
            SyncRecordInput::Control(record) => match &record.folder_id {
                Some(f) => Some(f),
                None => None,
            },
        }
    }

    pub fn object_id(&self) -> (r: Option<&String>)
        ensures
            match self {
                SyncRecordInput::FolderObjectRevision(record) => r == Some(&record.object_id),
                SyncRecordInput::FolderObjectTombstone(record) => r == Some(&record.object_id),
                SyncRecordInput::Control(_) => r is None,
            },
    {
        match self {
            SyncRecordInput::FolderObjectRevision(record) => Some(&record.object_id),
            SyncRecordInput::FolderObjectTombstone(record) => Some(&record.object_id),
            SyncRecordInput::Control(_) => None,
        }
    }

    pub fn revision(&self) -> (r: Option<u64>)
        ensures
            r == self.spec_revision(),
    {
        match self {
            SyncRecordInput::FolderObjectRevision(record) => Some(record.revision),
            SyncRecordInput::FolderObjectTombstone(record) => Some(record.revision),
            SyncRecordInput::Control(_) => None,
        }
    }

    pub fn actor_npub(&self) -> (r: &String)
        ensures
            *r == match self {
                SyncRecordInput::FolderObjectRevision(record) => record.actor_npub,
                SyncRecordInput::FolderObjectTombstone(record) => record.actor_npub,
                SyncRecordInput::Control(record) => record.actor_npub,
            },
    {
        match self {
            SyncRecordInput::FolderObjectRevision(record) => &record.actor_npub,
            SyncRecordInput::FolderObjectTombstone(record) => &record.actor_npub,
            SyncRecordInput::Control(record) => &record.actor_npub,
        }
    }

    pub fn client_created_at(&self) -> (r: &str)
        ensures
            r@ == match self {
                SyncRecordInput::FolderObjectRevision(record) => record.client_created_at@,
                SyncRecordInput::FolderObjectTombstone(record) => record.client_created_at@,
                SyncRecordInput::Control(record) => record.client_created_at@,
            },
    {
        match self {
            SyncRecordInput::FolderObjectRevision(record) => record.client_created_at.as_str(),
            SyncRecordInput::FolderObjectTombstone(record) => record.client_created_at.as_str(),
            SyncRecordInput::Control(record) => record.client_created_at.as_str(),
        }
    }

    pub fn payload_json(&self) -> (r: &str)
        ensures
            r@ == match self {
                SyncRecordInput::FolderObjectRevision(record) => record.payload_json@,
                SyncRecordInput::FolderObjectTombstone(record) => record.payload_json@,
                SyncRecordInput::Control(record) => record.payload_json@,
            },
    {
        match self {
            SyncRecordInput::FolderObjectRevision(record) => record.payload_json.as_str(),
            SyncRecordInput::FolderObjectTombstone(record) => record.payload_json.as_str(),
            SyncRecordInput::Control(record) => record.payload_json.as_str(),
        }
    }

    pub fn record_event_kind(&self) -> (r: u16)
        ensures
            r == match self {
                SyncRecordInput::FolderObjectRevision(record) => record.record_event_kind,
                SyncRecordInput::FolderObjectTombstone(record) => record.record_event_kind,
                SyncRecordInput::Control(record) => record.record_event_kind,
            },
    {
        match self {
            SyncRecordInput::FolderObjectRevision(record) => record.record_event_kind,
            SyncRecordInput::FolderObjectTombstone(record) => record.record_event_kind,
            SyncRecordInput::Control(record) => record.record_event_kind,
        }
    }
}

} // verus!
