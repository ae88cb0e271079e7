//! Removing explicit access to a shared source Folder: the removal rotates
//! the Folder to its next key version for the remaining recipients.
use vstd::prelude::*;

use crate::controls::{first_grant_control_fault, validate_folder_key_grant_control_records};
use crate::error::{broken, is_broken, is_missing_folder, StoreError};
use crate::export::CurrentEncryptedObject;
use crate::faults::first_fault;
use crate::folder_ops::{live_objects, live_objects_of, rotated};
use crate::grants::{recipients_match, rotation_grant_check, validate_connection_rotation_grants};
use crate::model::{
    copy_folder, find_folder, folder_with_id, has_explicit_access, stored_has_explicit_access,
    FolderKeyGrantMetadata, StoredBrain,
};
use crate::records::{FolderObjectRevisionSyncRecord, SyncRecordInput};
use crate::rotation::{rotation_records_outcome, validate_rotation_records};

verus! {

/// Outcome of checking a shared Folder access removal: at least one
/// target; the source Folder exists; the rotation goes to its next key
/// version; every target holds explicit access now; the grants are the
/// actor's current grants for exactly the remaining recipients
/// (`required`); one grant control per grant; and every live object is
/// re-encrypted once, one revision ahead.
pub open spec fn shared_removal_outcome(
    r: Result<(), StoreError>,
    stored: StoredBrain,
    folder_id: Seq<char>,
    actor: Seq<char>,
    removed: Seq<String>,
    new_key_version: u32,
    required: Seq<String>,
    grants: Seq<FolderKeyGrantMetadata>,
    controls: Seq<SyncRecordInput>,
    objects: Seq<CurrentEncryptedObject>,
    records: Seq<FolderObjectRevisionSyncRecord>,
) -> bool {
    if removed.len() == 0 {
        r matches Err(e) && is_broken(e, "shared folder access removal requires at least one target"@)
    } else {
        match folder_with_id(stored.brain.folders@, folder_id) {
            None => r matches Err(e) && is_missing_folder(e, folder_id),
            Some(f) => {
                let rf = rotated(f, new_key_version);
                let check = rotation_grant_check(rf, actor);
                if new_key_version != f.current_key_version + 1 {
                    r matches Err(e) && is_broken(e, "shared folder access removal must rotate to the next key version"@)
                } else if exists|i: int|
                    0 <= i < removed.len() && !has_explicit_access(stored, folder_id, (#[trigger] removed[i])@) {
                    r matches Err(e) && is_broken(e, "shared folder removal target does not currently have access"@)
                } else if first_fault(grants, check) is Some {
                    r matches Err(e) && is_broken(e, first_fault(grants, check)->0)
                } else if !recipients_match(grants, required) {
                    r matches Err(e) && is_broken(e, "connection rotation grants must exactly match remaining recipients"@)
                } else if controls.len() != grants.len() {
                    r matches Err(e) && is_broken(
                        e,
                        "sharing mutation requires one Folder Key Grant control record per grant"@,
                    )
                } else if first_grant_control_fault(grants, controls) is Some {
                    r matches Err(e) && is_broken(e, first_grant_control_fault(grants, controls)->0)
                } else {
                    rotation_records_outcome(r, live_objects(objects, folder_id), records)
                }
            },
        }
    }
}

/// Every target holds explicit access to the Folder.
fn all_have_access(stored: &StoredBrain, folder_id: &str, removed: &Vec<String>) -> (r: bool)
    ensures
        r == forall|i: int| 0 <= i < removed.len() ==> has_explicit_access(*stored, folder_id@, (#[trigger] removed@[i])@),
{
    let mut i: usize = 0;
    while i < removed.len()
        invariant
            i <= removed.len(),
            forall|j: int| 0 <= j < i ==> has_explicit_access(*stored, folder_id@, (#[trigger] removed@[j])@),
        decreases removed.len() - i,
    {
        if !stored_has_explicit_access(stored, folder_id, removed[i].as_str()) {
            return false;
        }
        i += 1;
    }
    true
}

/// Check a shared source Folder access removal before anything is written.
/// `removed_user_ids` is the set of targets; `required` the recipients the
/// rotated key must reach once they are gone.
pub fn check_shared_folder_access_removal(
    stored: &StoredBrain,
    source_folder_id: &str,
    actor_npub: &str,
    removed_user_ids: &Vec<String>,
    new_key_version: u32,
    required: &Vec<String>,
    grants: &Vec<FolderKeyGrantMetadata>,
    control_records: &Vec<SyncRecordInput>,
    current_objects: &Vec<CurrentEncryptedObject>,
    reencrypted_records: &Vec<FolderObjectRevisionSyncRecord>,
) -> (r: Result<(), StoreError>)
    ensures
        shared_removal_outcome(
            r,
            *stored,
            source_folder_id@,
            actor_npub@,
            removed_user_ids@,
            new_key_version,
            required@,
            grants@,
            control_records@,
            current_objects@,
            reencrypted_records@,
        ),
{
    if removed_user_ids.len() == 0 {
        return Err(broken("shared folder access removal requires at least one target"));
    }
    let idx = match find_folder(&stored.brain.folders, source_folder_id) {
        None => {
            return Err(StoreError::MissingFolder { folder_id: source_folder_id.to_owned() });
        },
        Some(i) => i,
    };
    let folder = &stored.brain.folders[idx];
    if folder.current_key_version == u32::MAX || new_key_version != folder.current_key_version + 1 {
        return Err(broken("shared folder access removal must rotate to the next key version"));
    }
    if !all_have_access(stored, source_folder_id, removed_user_ids) {
        return Err(broken("shared folder removal target does not currently have access"));
    }
    let mut rotated_folder = copy_folder(folder);
    rotated_folder.current_key_version = new_key_version;
    if let Err(e) = validate_connection_rotation_grants(&rotated_folder, required, grants, actor_npub) {
        return Err(e);
    }
    if let Err(e) = validate_folder_key_grant_control_records(grants, control_records) {
        return Err(e);
    }
    let live = live_objects_of(current_objects, source_folder_id);
    validate_rotation_records(&live, reencrypted_records)
}

} // verus!
