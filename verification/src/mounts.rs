//! Shared Folder Mounts seen from their two Brains, and the sync cursor
//! rules of a Brain's record log.
use vstd::prelude::*;

use crate::access::{has_brain_operational_authority, has_operational_authority};
use crate::error::{broken, is_broken, StoreError};
use crate::folder_ops::has_current_grant;
use crate::kinds::{SharedFolderConnectionStatus, SyncRecordType};
use crate::links::is_unavailable;
use crate::membership::StoredSharedFolderConnection;
use crate::model::{
    brain_is_admin, brain_is_member, brain_is_owner, find_folder, folder_with_id,
    has_explicit_access, is_admin, is_member, is_owner, is_personal_agent,
    stored_has_explicit_access, stored_is_personal_agent, StoredBrain,
};

verus! {

/// The actor reads the source Folder (as an admin or explicitly) and holds a
/// grant for its current key.
pub open spec fn source_access_and_grant(source: StoredBrain, folder_id: Seq<char>, actor: Seq<char>) -> bool {
    match folder_with_id(source.brain.folders@, folder_id) {
        None => false,
        Some(folder) => (is_admin(source.brain, actor) || has_explicit_access(source, folder_id, actor))
            && has_current_grant(source, folder, actor),
    }
}

/// True when the actor reads the source Folder and holds its current key.
pub fn actor_has_current_source_access_and_grant(source: &StoredBrain, folder_id: &str, actor: &str) -> (r: bool)
    ensures
        r == source_access_and_grant(*source, folder_id@, actor@),
{
    let idx = match find_folder(&source.brain.folders, folder_id) {
        None => {
            return false;
        },
        Some(i) => i,
    };
    let folder = &source.brain.folders[idx];
    proof {
        crate::model::lemma_folder_with_id_none(source.brain.folders@, folder_id@);
    }
    let has_access = brain_is_admin(&source.brain, actor) || stored_has_explicit_access(source, folder_id, actor);
    has_access && crate::folder_ops::has_current_grant_exec(source, folder, actor)
}

/// Managing a Mount's participants needs an active Mount and control of
/// its destination Brain.
pub fn validate_destination_admin_for_connection(
    connection: &StoredSharedFolderConnection,
    destination: &StoredBrain,
    actor: &str,
) -> (r: Result<(), StoreError>)
    ensures
        if connection.status != SharedFolderConnectionStatus::Active {
            r matches Err(e) && is_unavailable(e, "Mount"@)
        } else if !has_operational_authority(*destination, actor@) {
            r matches Err(e) && is_broken(e, "mount participant management requires destination brain control"@)
        } else {
            r is Ok
        },
{
    if connection.status != SharedFolderConnectionStatus::Active {
        return Err(StoreError::UnavailableLink { kind: "Mount" });
    }
    if !has_brain_operational_authority(destination, actor) {
        return Err(broken("mount participant management requires destination brain control"));
    }
    Ok(())
}

/// The destination Brain governs the participant: its owner, Personal
/// Agent, an admin or a Member.
pub open spec fn governed_by(destination: StoredBrain, u: Seq<char>) -> bool {
    is_owner(destination.brain, u) || is_personal_agent(destination, u) || is_admin(destination.brain, u) || is_member(
        destination.brain,
        u,
    )
}

/// A Mount participant must be governed by the destination Brain.
pub fn validate_destination_member(destination: &StoredBrain, target: &str) -> (r: Result<(), StoreError>)
    ensures
        match r {
            Ok(()) => governed_by(*destination, target@),
            Err(e) => !governed_by(*destination, target@) && is_broken(
                e,
                "mount participant must be governed by the destination brain"@,
            ),
        },
{
    if brain_is_owner(&destination.brain, target) || stored_is_personal_agent(destination, target) || brain_is_admin(
        &destination.brain,
        target,
    ) || brain_is_member(&destination.brain, target) {
        Ok(())
    } else {
        Err(broken("mount participant must be governed by the destination brain"))
    }
}

/// A pull from before the retained floor must rebootstrap instead.
pub fn check_pull_cursor(after_sequence: u64, retention_floor: u64) -> (r: Result<(), StoreError>)
    ensures
        if after_sequence < retention_floor {
            r == Err::<(), StoreError>(StoreError::RebootstrapRequired { retention_floor })
        } else {
            r is Ok
        },
{
    if after_sequence < retention_floor {
        return Err(StoreError::RebootstrapRequired { retention_floor });
    }
    Ok(())
}

/// The record types a rebootstrap replays besides current objects: Folder
/// Key Grants and admin access changes.
pub fn bootstrap_replays(t: SyncRecordType) -> (r: bool)
    ensures
        r == (t == SyncRecordType::FolderKeyGrant || t == SyncRecordType::BrainAdminAccessChange),
{
    t == SyncRecordType::FolderKeyGrant || t == SyncRecordType::BrainAdminAccessChange
}

} // verus!
