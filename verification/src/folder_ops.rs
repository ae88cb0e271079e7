//! Decisions behind Folder creation, setup, explicit access grants and
//! access-removal rotations.
use vstd::prelude::*;

use crate::controls::{
    access_grant_record_fault, first_grant_control_fault, validate_folder_grant_control_records,
    validate_folder_key_grant_control_records,
};
use crate::kinds::SyncRecordType;
use crate::error::{broken, is_broken, is_missing_folder, StoreError};
use crate::export::CurrentEncryptedObject;
use crate::faults::first_fault;
use crate::grants::{
    folder_grant_check, opt_view, recipient_outcome, validate_folder_grants, validate_grant_issuer,
    validate_grant_metadata,
};
use crate::kinds::{FolderAccessMode, GrantFolderAccessOutcome};
use crate::model::{
    brain_is_admin, brain_is_member, brain_is_owner, copy_folder, find_folder, folder_with_id,
    has_explicit_access, is_admin, is_member, is_owner, lemma_folder_with_id_none, seq_has,
    stored_has_explicit_access, texts_contain, Brain, Folder, FolderKeyGrantMetadata, StoredBrain,
};
use crate::records::{FolderObjectRevisionSyncRecord, SyncRecordInput};
use crate::rotation::{rotation_records_outcome, validate_rotation_records};
use crate::text::str_eq;

verus! {

/// The Folder with its key advanced to the given version.
pub open spec fn rotated(folder: Folder, key_version: u32) -> Folder {
    Folder { current_key_version: key_version, ..folder }
}

/// The Personal Agent's npub, if the Brain has one.
pub open spec fn agent_view(stored: StoredBrain) -> Option<Seq<char>> {
    match stored.personal_agent {
        Some(a) => Some(a.agent_npub@),
        None => None,
    }
}

/// Live (not deleted) objects of the Folder, in projection order.
pub open spec fn live_objects(os: Seq<CurrentEncryptedObject>, folder_id: Seq<char>) -> Seq<
    CurrentEncryptedObject,
>
    decreases os.len(),
{
    if os.len() == 0 {
        Seq::empty()
    } else {
        let prev = live_objects(os.drop_last(), folder_id);
        if os.last().folder_id@ == folder_id && !os.last().deleted {
            prev.push(os.last())
        } else {
            prev
        }
    }
}

/// The outcome of validating a rotated Folder's grants and re-encrypted
/// records, in that order.
pub open spec fn rotation_outcome(
    r: Result<(), StoreError>,
    stored: StoredBrain,
    brain: Brain,
    folder: Folder,
    required: Seq<String>,
    grants: Seq<FolderKeyGrantMetadata>,
    live: Seq<CurrentEncryptedObject>,
    records: Seq<FolderObjectRevisionSyncRecord>,
) -> bool {
    match first_fault(grants, folder_grant_check(brain, folder, agent_view(stored))) {
        Some(m) => r matches Err(e) && is_broken(e, m),
        None => {
            let g = if exists|u: Seq<char>|
                seq_has(required, u) && !crate::grants::grants_recipient(grants, u) {
                false
            } else {
                crate::grants::recipients_match(grants, required)
            };
            if !g {
                recipient_outcome(r, grants, required, "grant recipients must exactly match required recipients"@)
            } else {
                rotation_records_outcome(r, live, records)
            }
        },
    }
}

/// The rotated Folder's grants and re-encrypted records all pass.
pub open spec fn rotation_valid(
    stored: StoredBrain,
    brain: Brain,
    folder: Folder,
    required: Seq<String>,
    grants: Seq<FolderKeyGrantMetadata>,
    live: Seq<CurrentEncryptedObject>,
    records: Seq<FolderObjectRevisionSyncRecord>,
) -> bool {
    &&& first_fault(grants, folder_grant_check(brain, folder, agent_view(stored))) is None
    &&& forall|u: Seq<char>| seq_has(required, u) ==> crate::grants::grants_recipient(grants, u)
    &&& crate::grants::recipients_match(grants, required)
    &&& crate::rotation::covers_each_live_object_once(live, records)
    &&& crate::rotation::each_record_advances(live, records)
}

/// The result with its success value dropped.
pub open spec fn unit_of<T>(r: Result<T, StoreError>) -> Result<(), StoreError> {
    match r {
        Ok(_) => Ok(()),
        Err(e) => Err(e),
    }
}

pub fn copy_object(o: &CurrentEncryptedObject) -> (r: CurrentEncryptedObject)
    ensures
        r == *o,
{
    CurrentEncryptedObject {
        folder_id: o.folder_id.clone(),
        object_id: o.object_id.clone(),
        payload_json: o.payload_json.clone(),
        revision: o.revision,
        updated_at: o.updated_at.clone(),
        deleted: o.deleted,
    }
}

/// Live objects of one Folder.
pub fn live_objects_of(objects: &Vec<CurrentEncryptedObject>, folder_id: &str) -> (r: Vec<
    CurrentEncryptedObject,
>)
    ensures
        r@ == live_objects(objects@, folder_id@),
{
    let mut r: Vec<CurrentEncryptedObject> = Vec::new();
    let mut i: usize = 0;
    while i < objects.len()
        invariant
            i <= objects.len(),
            r@ == live_objects(objects@.take(i as int), folder_id@),
        decreases objects.len() - i,
    {
        assert(objects@.take(i + 1).drop_last() =~= objects@.take(i as int));
        if str_eq(objects[i].folder_id.as_str(), folder_id) && !objects[i].deleted {
            r.push(copy_object(&objects[i]));
        }
        i += 1;
    }
    assert(objects@.take(i as int) =~= objects@);
    r
}

fn agent_of(stored: &StoredBrain) -> (r: Option<&str>)
    ensures
        opt_view(r) == agent_view(*stored),
{
    match &stored.personal_agent {
        Some(a) => Some(a.agent_npub.as_str()),
        None => None,
    }
}

pub(crate) fn validate_rotated_folder(
    stored: &StoredBrain,
    brain: &Brain,
    folder: &Folder,
    required: &Vec<String>,
    grants: &Vec<FolderKeyGrantMetadata>,
    live: &Vec<CurrentEncryptedObject>,
    records: &Vec<FolderObjectRevisionSyncRecord>,
) -> (r: Result<(), StoreError>)
    ensures
        rotation_outcome(r, *stored, *brain, *folder, required@, grants@, live@, records@),
{
    let agent = agent_of(stored);
    let g = validate_folder_grants(brain, folder, required, grants, agent);
    match g {
        Err(e) => Err(e),
        Ok(()) => validate_rotation_records(live, records),
    }
}

/// Validate an explicit Folder access removal: the Folder rotates to its next
/// key version, the removed identity holds explicit (not Mount-managed)
/// access, the grants name exactly the remaining recipients, and every live
/// object is re-encrypted once.
pub fn validate_folder_access_removal(
    stored: &StoredBrain,
    folder_id: &str,
    removed_user_id: &str,
    new_key_version: u32,
    grants: &Vec<FolderKeyGrantMetadata>,
    reencrypted_records: &Vec<FolderObjectRevisionSyncRecord>,
    required_after: &Vec<String>,
    removed_has_mount_source: bool,
    current_objects: &Vec<CurrentEncryptedObject>,
) -> (r: Result<(), StoreError>)
    ensures
        match folder_with_id(stored.brain.folders@, folder_id@) {
            None => r matches Err(e) && is_missing_folder(e, folder_id@),
            Some(folder) => if new_key_version != folder.current_key_version + 1 {
                r matches Err(e) && is_broken(
                    e,
                    "folder access removal must rotate to the next key version"@,
                )
            } else if !has_explicit_access(*stored, folder_id@, removed_user_id@) {
                r matches Err(e) && is_broken(
                    e,
                    "folder access target does not currently have access"@,
                )
            } else if removed_has_mount_source {
                r matches Err(e) && is_broken(
                    e,
                    "Folder access target still receives this Folder through an active Mount; remove the target from that Mount before rotating explicit Folder access"@,
                )
            } else {
                rotation_outcome(
                    r,
                    *stored,
                    stored.brain,
                    rotated(folder, new_key_version),
                    required_after@,
                    grants@,
                    live_objects(current_objects@, folder_id@),
                    reencrypted_records@,
                )
            },
        },
{
    let idx = match find_folder(&stored.brain.folders, folder_id) {
        None => {
            return Err(StoreError::MissingFolder { folder_id: folder_id.to_owned() });
        },
        Some(i) => i,
    };
    let folder = &stored.brain.folders[idx];
    if folder.current_key_version == u32::MAX || new_key_version != folder.current_key_version + 1 {
        return Err(broken("folder access removal must rotate to the next key version"));
    }
    if !stored_has_explicit_access(stored, folder_id, removed_user_id) {
        return Err(broken("folder access target does not currently have access"));
    }
    if removed_has_mount_source {
        return Err(
            broken(
                "Folder access target still receives this Folder through an active Mount; remove the target from that Mount before rotating explicit Folder access",
            ),
        );
    }
    let mut rotated_folder = copy_folder(folder);
    rotated_folder.current_key_version = new_key_version;
    let live = live_objects_of(current_objects, folder_id);
    validate_rotated_folder(
        stored,
        &stored.brain,
        &rotated_folder,
        required_after,
        grants,
        &live,
        reencrypted_records,
    )
}

/// What completing a departure-marked rotation does.
#[derive(Debug, Clone, Copy, PartialEq, Eq, Structural)]
pub enum DepartureRotationStep {
    /// The Folder already moved past the marked key version; only the marker
    /// is cleared.
    ClearMarker,
    /// Rotate to the next key version, then clear the marker.
    Rotate,
}

/// Decide how a departure-marked Folder Key rotation completes: a marker left
/// behind by a Folder that already rotated is cleared; otherwise the supplied
/// rotation must advance one key version with exact grants, re-encrypted
/// records and one Folder Key Grant control record per grant.
pub fn plan_departure_rotation_completion(
    stored: &StoredBrain,
    folder_id: &str,
    marked_key_version: Option<u32>,
    new_key_version: u32,
    grants: &Vec<FolderKeyGrantMetadata>,
    reencrypted_records: &Vec<FolderObjectRevisionSyncRecord>,
    control_records: &Vec<SyncRecordInput>,
    required_after: &Vec<String>,
    current_objects: &Vec<CurrentEncryptedObject>,
) -> (r: Result<DepartureRotationStep, StoreError>)
    ensures
        match folder_with_id(stored.brain.folders@, folder_id@) {
            None => r matches Err(e) && is_missing_folder(e, folder_id@),
            Some(folder) => match marked_key_version {
                None => r matches Err(e) && is_broken(e, "no departure rotation is pending for this Folder"@),
                Some(marked) => if marked < folder.current_key_version {
                    r == Ok::<DepartureRotationStep, StoreError>(DepartureRotationStep::ClearMarker)
                } else if new_key_version != folder.current_key_version + 1 {
                    r matches Err(e) && is_broken(e, "departure rotation must rotate to the next key version"@)
                } else if !rotation_valid(
                    *stored,
                    stored.brain,
                    rotated(folder, new_key_version),
                    required_after@,
                    grants@,
                    live_objects(current_objects@, folder_id@),
                    reencrypted_records@,
                ) {
                    r is Err && rotation_outcome(
                        unit_of(r),
                        *stored,
                        stored.brain,
                        rotated(folder, new_key_version),
                        required_after@,
                        grants@,
                        live_objects(current_objects@, folder_id@),
                        reencrypted_records@,
                    )
                } else if control_records.len() != grants.len() {
                    r matches Err(e) && is_broken(
                        e,
                        "sharing mutation requires one Folder Key Grant control record per grant"@,
                    )
                } else {
                    match first_grant_control_fault(grants@, control_records@) {
                        Some(m) => r matches Err(e) && is_broken(e, m),
                        None => r == Ok::<DepartureRotationStep, StoreError>(
                            DepartureRotationStep::Rotate,
                        ),
                    }
                },
            },
        },
{
    let idx = match find_folder(&stored.brain.folders, folder_id) {
        None => {
            return Err(StoreError::MissingFolder { folder_id: folder_id.to_owned() });
        },
        Some(i) => i,
    };
    let folder = &stored.brain.folders[idx];
    let marked = match marked_key_version {
        None => {
            return Err(broken("no departure rotation is pending for this Folder"));
        },
        Some(m) => m,
    };
    if marked < folder.current_key_version {
        return Ok(DepartureRotationStep::ClearMarker);
    }
    if folder.current_key_version == u32::MAX || new_key_version != folder.current_key_version + 1 {
        return Err(broken("departure rotation must rotate to the next key version"));
    }
    let mut rotated_folder = copy_folder(folder);
    rotated_folder.current_key_version = new_key_version;
    let live = live_objects_of(current_objects, folder_id);
    match validate_rotated_folder(
        stored,
        &stored.brain,
        &rotated_folder,
        required_after,
        grants,
        &live,
        reencrypted_records,
    ) {
        Err(e) => Err(e),
        Ok(()) => match validate_folder_key_grant_control_records(grants, control_records) {
            Err(e) => Err(e),
            Ok(()) => Ok(DepartureRotationStep::Rotate),
        },
    }
}

/// Native access an explicit Folder grant leaves in place: the owner for an
/// owner Folder, admins, and members of an all-members Folder.
pub open spec fn grant_native_access(brain: Brain, access: FolderAccessMode, u: Seq<char>) -> bool {
    match access {
        FolderAccessMode::Owner => is_owner(brain, u),
        FolderAccessMode::AdminOnly => is_admin(brain, u),
        FolderAccessMode::AllMembers => is_admin(brain, u) || is_member(brain, u),
        FolderAccessMode::Restricted => is_admin(brain, u),
    }
}

/// A stored grant already delivers the Folder's current key to the user.
pub open spec fn has_current_grant(stored: StoredBrain, folder: Folder, u: Seq<char>) -> bool {
    exists|i: int|
        0 <= i < stored.grants.len() && (#[trigger] stored.grants[i]).folder_id@ == folder.id@
            && stored.grants[i].key_version == folder.current_key_version
            && stored.grants[i].recipient_npub@ == u
}

/// What granting explicit Folder access writes.
#[derive(Debug, Clone, Copy, PartialEq, Eq, Structural)]
pub struct FolderAccessGrantPlan {
    pub outcome: GrantFolderAccessOutcome,
    /// An explicit access row is inserted.
    pub inserts_access_row: bool,
    /// A direct access source is recorded.
    pub inserts_access_source: bool,
}

/// Why a single grant cannot deliver the Folder's current key to the target,
/// if it cannot.
pub open spec fn target_grant_fault(
    stored: StoredBrain,
    folder: Folder,
    user: Seq<char>,
    g: FolderKeyGrantMetadata,
) -> Option<Seq<char>> {
    if crate::grants::grant_metadata_fault(g) is Some {
        crate::grants::grant_metadata_fault(g)
    } else if crate::grants::issuer_fault(stored.brain, g, agent_view(stored)) is Some {
        crate::grants::issuer_fault(stored.brain, g, agent_view(stored))
    } else if g.folder_id@ != folder.id@ {
        Some("grant folder id must match folder metadata"@)
    } else if g.key_version != folder.current_key_version {
        Some("grant key version must match folder current key version"@)
    } else if g.recipient_npub@ != user {
        Some("grant recipient must match folder access target"@)
    } else {
        None
    }
}

pub(crate) fn has_current_grant_exec(stored: &StoredBrain, folder: &Folder, u: &str) -> (r: bool)
    ensures
        r == has_current_grant(*stored, *folder, u@),
{
    let mut i: usize = 0;
    while i < stored.grants.len()
        invariant
            i <= stored.grants.len(),
            forall|j: int|
                0 <= j < i ==> !((#[trigger] stored.grants@[j]).folder_id@ == folder.id@
                    && stored.grants@[j].key_version == folder.current_key_version
                    && stored.grants@[j].recipient_npub@ == u@),
        decreases stored.grants.len() - i,
    {
        let g = &stored.grants[i];
        if str_eq(g.folder_id.as_str(), folder.id.as_str()) && g.key_version
            == folder.current_key_version && str_eq(g.recipient_npub.as_str(), u) {
            return true;
        }
        i += 1;
    }
    false
}

/// Decide an explicit Folder access grant. Explicit Folder grants are
/// orthogonal to native access mode; targets without Brain Membership become
/// Guests scoped to this Folder. An identity that already has effective
/// access, a current grant, and native or direct access is left unchanged.
pub fn plan_folder_access_grant(
    stored: &StoredBrain,
    folder_id: &str,
    user_id: &str,
    grant: &FolderKeyGrantMetadata,
    control_records: &Vec<SyncRecordInput>,
    effective_access: &Vec<String>,
    direct_source_exists: bool,
) -> (r: Result<FolderAccessGrantPlan, StoreError>)
    ensures
        match folder_with_id(stored.brain.folders@, folder_id@) {
            None => r matches Err(e) && is_missing_folder(e, folder_id@),
            Some(folder) => if is_owner(stored.brain, user_id@) {
                r matches Err(e) && is_broken(e, "Personal Brain owner cannot be an ordinary Folder Guest"@)
            } else if target_grant_fault(*stored, folder, user_id@, *grant) is Some {
                r matches Err(e) && is_broken(e, target_grant_fault(*stored, folder, user_id@, *grant).unwrap())
            } else {
                let native = grant_native_access(stored.brain, folder.access, user_id@);
                if seq_has(effective_access@, user_id@) && has_current_grant(*stored, folder, user_id@)
                    && (native || direct_source_exists) {
                    r == Ok::<FolderAccessGrantPlan, StoreError>(FolderAccessGrantPlan {
                        outcome: GrantFolderAccessOutcome::AlreadyHasAccess,
                        inserts_access_row: false,
                        inserts_access_source: false,
                    })
                } else if control_records.len() != 2 {
                    r matches Err(e) && is_broken(e, "Folder access grant requires one Folder Key Grant record and one access-change record"@)
                } else if access_grant_record_fault(folder_id@, *grant, control_records@[0], SyncRecordType::FolderKeyGrant) is Some {
                    r matches Err(e) && is_broken(e, access_grant_record_fault(folder_id@, *grant, control_records@[0], SyncRecordType::FolderKeyGrant).unwrap())
                } else if access_grant_record_fault(folder_id@, *grant, control_records@[1], SyncRecordType::BrainAdminAccessChange) is Some {
                    r matches Err(e) && is_broken(e, access_grant_record_fault(folder_id@, *grant, control_records@[1], SyncRecordType::BrainAdminAccessChange).unwrap())
                } else {
                    r == Ok::<FolderAccessGrantPlan, StoreError>(FolderAccessGrantPlan {
                        outcome: GrantFolderAccessOutcome::Granted,
                        inserts_access_row: !native && !has_explicit_access(*stored, folder_id@, user_id@),
                        inserts_access_source: !native,
                    })
                }
            },
        },
{
    let idx = match find_folder(&stored.brain.folders, folder_id) {
        None => {
            return Err(StoreError::MissingFolder { folder_id: folder_id.to_owned() });
        },
        Some(i) => i,
    };
    let folder = &stored.brain.folders[idx];
    proof {
        lemma_folder_with_id_none(stored.brain.folders@, folder_id@);
    }
    if brain_is_owner(&stored.brain, user_id) {
        return Err(broken("Personal Brain owner cannot be an ordinary Folder Guest"));
    }
    validate_grant_metadata(grant)?;
    validate_grant_issuer(&stored.brain, grant, agent_of(stored))?;
    if !str_eq(grant.folder_id.as_str(), folder_id) {
        return Err(broken("grant folder id must match folder metadata"));
    }
    if grant.key_version != folder.current_key_version {
        return Err(broken("grant key version must match folder current key version"));
    }
    if !str_eq(grant.recipient_npub.as_str(), user_id) {
        return Err(broken("grant recipient must match folder access target"));
    }
    let current_grant_exists = has_current_grant_exec(stored, folder, user_id);
    let is_admin = brain_is_admin(&stored.brain, user_id);
    let has_native_access = match folder.access {
        FolderAccessMode::Owner => brain_is_owner(&stored.brain, user_id),
        FolderAccessMode::AdminOnly => is_admin,
        FolderAccessMode::AllMembers => is_admin || brain_is_member(&stored.brain, user_id),
        FolderAccessMode::Restricted => is_admin,
    };
    if texts_contain(effective_access, user_id) && current_grant_exists && (has_native_access
        || direct_source_exists) {
        return Ok(
            FolderAccessGrantPlan {
                outcome: GrantFolderAccessOutcome::AlreadyHasAccess,
                inserts_access_row: false,
                inserts_access_source: false,
            },
        );
    }
    validate_folder_grant_control_records(folder_id, grant, control_records)?;
    let inserts_access_row = !has_native_access && !stored_has_explicit_access(
        stored,
        folder_id,
        user_id,
    );
    Ok(
        FolderAccessGrantPlan {
            outcome: GrantFolderAccessOutcome::Granted,
            inserts_access_row,
            inserts_access_source: !has_native_access,
        },
    )
}

/// Why a new Folder does not fit the Brain's hierarchy, if it does not.
pub open spec fn hierarchy_fault(brain: Brain, folder: Folder) -> Option<StoreError> {
    if folder_with_id(brain.folders@, folder.id@) is Some {
        Some(StoreError::DuplicateId { field: "folder_id", value: folder.id })
    } else {
        match folder.parent_folder_id {
            Some(p) => if folder_with_id(brain.folders@, p@) is None {
                Some(StoreError::MissingFolder { folder_id: p })
            } else {
                None
            },
            None => None,
        }
    }
}

/// The error equals the expected one, reading `DuplicateId` by its text.
pub open spec fn same_error(e: StoreError, expected: StoreError) -> bool {
    match (e, expected) {
        (StoreError::DuplicateId { field: f1, value: v1 }, StoreError::DuplicateId { field: f2, value: v2 }) =>
            f1@ == f2@ && v1@ == v2@,
        (StoreError::MissingFolder { folder_id: a }, StoreError::MissingFolder { folder_id: b }) => a@ == b@,
        _ => false,
    }
}

/// A new Folder's id is unused in the Brain and its parent exists.
pub fn validate_hierarchy(brain: &Brain, folder: &Folder) -> (r: Result<(), StoreError>)
    ensures
        match hierarchy_fault(*brain, *folder) {
            None => r is Ok,
            Some(expected) => r matches Err(e) && same_error(e, expected),
        },
{
    if find_folder(&brain.folders, folder.id.as_str()).is_some() {
        return Err(StoreError::DuplicateId { field: "folder_id", value: folder.id.clone() });
    }
    if let Some(parent) = &folder.parent_folder_id {
        if find_folder(&brain.folders, parent.as_str()).is_none() {
            return Err(StoreError::MissingFolder { folder_id: parent.clone() });
        }
    }
    Ok(())
}

/// Validate a new Folder: its identity was never deleted, it starts at key
/// version 1, the Personal Brain owner is not made a Guest, it fits the
/// hierarchy, and its grants are exactly the required recipients' grants.
pub fn validate_create_folder(
    brain: &Brain,
    folder: &Folder,
    access_user_ids: &Vec<String>,
    grants: &Vec<FolderKeyGrantMetadata>,
    required_recipients: &Vec<String>,
    identity_was_deleted: bool,
    personal_agent: Option<&str>,
) -> (r: Result<(), StoreError>)
    ensures
        if identity_was_deleted {
            r matches Err(e) && is_broken(e, "deleted Folder identities cannot be reused"@)
        } else if folder.current_key_version != 1 {
            r matches Err(e) && is_broken(e, "new folders must start at key version 1"@)
        } else if brain.owner_user_id matches Some(o) && seq_has(access_user_ids@, o@) {
            r matches Err(e) && is_broken(e, "Personal Brain owner cannot be an ordinary Folder Guest"@)
        } else if hierarchy_fault(*brain, *folder) is Some {
            r matches Err(e) && same_error(e, hierarchy_fault(*brain, *folder).unwrap())
        } else {
            match first_fault(grants@, folder_grant_check(*brain, *folder, opt_view(personal_agent))) {
                Some(m) => r matches Err(e) && is_broken(e, m),
                None => recipient_outcome(
                    r,
                    grants@,
                    required_recipients@,
                    "grant recipients must exactly match required recipients"@,
                ),
            }
        },
{
    if identity_was_deleted {
        return Err(broken("deleted Folder identities cannot be reused"));
    }
    if folder.current_key_version != 1 {
        return Err(broken("new folders must start at key version 1"));
    }
    if let Some(owner) = &brain.owner_user_id {
        if texts_contain(access_user_ids, owner.as_str()) {
            return Err(broken("Personal Brain owner cannot be an ordinary Folder Guest"));
        }
    }
    validate_hierarchy(brain, folder)?;
    validate_folder_grants(brain, folder, required_recipients, grants, personal_agent)
}

/// Validate an empty legacy Folder inserted for later repair: its identity
/// was never deleted and it fits the hierarchy.
pub fn validate_repair_folder(brain: &Brain, folder: &Folder, identity_was_deleted: bool) -> (r:
    Result<(), StoreError>)
    ensures
        if identity_was_deleted {
            r matches Err(e) && is_broken(e, "deleted Folder identities cannot be reused"@)
        } else {
            match hierarchy_fault(*brain, *folder) {
                None => r is Ok,
                Some(expected) => r matches Err(e) && same_error(e, expected),
            }
        },
{
    if identity_was_deleted {
        return Err(broken("deleted Folder identities cannot be reused"));
    }
    validate_hierarchy(brain, folder)
}

/// Some object of the projection (deleted or not) lives in the Folder.
pub open spec fn folder_has_objects(os: Seq<CurrentEncryptedObject>, folder_id: Seq<char>) -> bool {
    exists|i: int| 0 <= i < os.len() && (#[trigger] os[i]).folder_id@ == folder_id
}

/// Validate finishing setup of an empty Folder: it exists, still needs
/// setup, holds no objects, and the grants are exactly the required
/// recipients' current grants.
pub fn validate_finish_folder_setup(
    stored: &StoredBrain,
    folder_id: &str,
    grants: &Vec<FolderKeyGrantMetadata>,
    required_recipients: &Vec<String>,
    current_objects: &Vec<CurrentEncryptedObject>,
) -> (r: Result<(), StoreError>)
    ensures
        match folder_with_id(stored.brain.folders@, folder_id@) {
            None => r matches Err(e) && is_missing_folder(e, folder_id@),
            Some(folder) => if !seq_has(stored.setup_incomplete_folder_ids@, folder_id@) {
                r matches Err(e) && is_broken(e, "folder setup is already complete"@)
            } else if folder_has_objects(current_objects@, folder_id@) {
                r matches Err(e) && is_broken(e, "finish setup only supports empty folders"@)
            } else {
                match first_fault(grants@, folder_grant_check(stored.brain, folder, agent_view(*stored))) {
                    Some(m) => r matches Err(e) && is_broken(e, m),
                    None => recipient_outcome(
                        r,
                        grants@,
                        required_recipients@,
                        "grant recipients must exactly match required recipients"@,
                    ),
                }
            },
        },
{
    let idx = match find_folder(&stored.brain.folders, folder_id) {
        None => {
            return Err(StoreError::MissingFolder { folder_id: folder_id.to_owned() });
        },
        Some(i) => i,
    };
    if !texts_contain(&stored.setup_incomplete_folder_ids, folder_id) {
        return Err(broken("folder setup is already complete"));
    }
    let mut i: usize = 0;
    while i < current_objects.len()
        invariant
            i <= current_objects.len(),
            forall|j: int| 0 <= j < i ==> (#[trigger] current_objects@[j]).folder_id@ != folder_id@,
            seq_has(stored.setup_incomplete_folder_ids@, folder_id@),
            idx < stored.brain.folders.len(),
            folder_with_id(stored.brain.folders@, folder_id@) == Some(stored.brain.folders@[idx as int]),
        decreases current_objects.len() - i,
    {
        if str_eq(current_objects[i].folder_id.as_str(), folder_id) {
            assert(folder_has_objects(current_objects@, folder_id@));
            return Err(broken("finish setup only supports empty folders"));
        }
        i += 1;
    }
    validate_folder_grants(
        &stored.brain,
        &stored.brain.folders[idx],
        required_recipients,
        grants,
        agent_of(stored),
    )
}

} // verus!
