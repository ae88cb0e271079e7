//! Removing a Brain Member together with every readable Folder relationship:
//! one key rotation per readable Folder and one per active Mount
//! participation, all checked before anything is written.
use vstd::prelude::*;

use crate::error::{broken, is_broken, is_missing_folder, StoreError};
use crate::export::CurrentEncryptedObject;
use crate::faults::first_fault;
use crate::folder_ops::{live_objects, live_objects_of, rotated, rotation_outcome, rotation_valid, unit_of};
use crate::grants::{rotation_grant_check, validate_connection_rotation_grants, validate_folder_grants};
use crate::kinds::SharedFolderConnectionStatus;
use crate::membership::{removal_targets, StoredSharedFolderConnection};
use crate::model::{
    brain_is_admin, brain_is_member, copy_folder, find_folder, folder_with_id, has_explicit_access,
    is_admin, is_member, seq_has, stored_has_explicit_access, texts_contain, Folder,
    FolderKeyGrantMetadata, StoredBrain,
};
use crate::records::FolderObjectRevisionSyncRecord;
use crate::rotation::{rotation_records_outcome, validate_rotation_records};
use crate::text::str_eq;

verus! {

/// One Folder Key rotation prepared for atomic Member removal.
#[derive(Debug, Clone, PartialEq, Eq)]
pub struct MemberFolderRotation {
    pub folder_id: String,
    pub new_key_version: u32,
    pub grants: Vec<FolderKeyGrantMetadata>,
    pub reencrypted_records: Vec<FolderObjectRevisionSyncRecord>,
}

/// One mounted source Folder rotation prepared for atomic Member removal.
#[derive(Debug, Clone, PartialEq, Eq)]
pub struct MemberMountRotation {
    pub connection_id: String,
    pub revoke_mount: bool,
    pub new_key_version: u32,
    pub grants: Vec<FolderKeyGrantMetadata>,
    pub reencrypted_records: Vec<FolderObjectRevisionSyncRecord>,
}

/// What the store loaded for one Mount rotation: the connection it names,
/// the source Brain, the source Folder's required recipients once the
/// removal targets lose access, and the source Brain's current objects.
#[derive(Debug, Clone, PartialEq, Eq)]
pub struct MountRotationContext {
    pub connection: StoredSharedFolderConnection,
    pub source: StoredBrain,
    pub required_after: Vec<String>,
    pub source_objects: Vec<CurrentEncryptedObject>,
}

/// The folder ids of the rotations.
pub open spec fn rotation_folder_ids(rs: Seq<MemberFolderRotation>) -> Seq<Seq<char>> {
    rs.map_values(|r: MemberFolderRotation| r.folder_id@)
}

/// The connection ids of the Mount rotations.
pub open spec fn rotation_connection_ids(rs: Seq<MemberMountRotation>) -> Seq<Seq<char>> {
    rs.map_values(|r: MemberMountRotation| r.connection_id@)
}

/// The supplied ids are exactly the expected ones, each once.
pub open spec fn exactly_once(expected: Seq<String>, supplied: Seq<Seq<char>>) -> bool {
    &&& forall|x: Seq<char>| seq_has(expected, x) <==> supplied.contains(x)
    &&& forall|i: int, j: int| 0 <= i < j < supplied.len() ==> supplied[i] != supplied[j]
}

/// The native rotation for one readable Folder is acceptable.
pub open spec fn folder_rotation_ok(
    stored: StoredBrain,
    rot: MemberFolderRotation,
    required: Seq<String>,
    objects: Seq<CurrentEncryptedObject>,
) -> bool {
    match folder_with_id(stored.brain.folders@, rot.folder_id@) {
        None => false,
        Some(folder) => rot.new_key_version == folder.current_key_version + 1 && rotation_valid(
            stored,
            stored.brain,
            rotated(folder, rot.new_key_version),
            required,
            rot.grants@,
            live_objects(objects, rot.folder_id@),
            rot.reencrypted_records@,
        ),
    }
}

/// The error a failing native rotation reports.
pub open spec fn folder_rotation_outcome(
    r: Result<(), StoreError>,
    stored: StoredBrain,
    rot: MemberFolderRotation,
    required: Seq<String>,
    objects: Seq<CurrentEncryptedObject>,
) -> bool {
    match folder_with_id(stored.brain.folders@, rot.folder_id@) {
        None => r matches Err(e) && is_missing_folder(e, rot.folder_id@),
        Some(folder) => if rot.new_key_version != folder.current_key_version + 1 {
            r matches Err(e) && is_broken(
                e,
                "member removal must rotate to each Folder's next key version"@,
            )
        } else {
            rotation_outcome(
                r,
                stored,
                stored.brain,
                rotated(folder, rot.new_key_version),
                required,
                rot.grants@,
                live_objects(objects, rot.folder_id@),
                rot.reencrypted_records@,
            )
        },
    }
}

/// Why a Mount rotation does not match the removal, before any key checks.
pub open spec fn mount_match_fault(
    brain_id: Seq<char>,
    removed: Seq<char>,
    rot: MemberMountRotation,
    c: StoredSharedFolderConnection,
    earlier: Seq<MountRotationContext>,
    native_folder_ids: Seq<Seq<char>>,
) -> Option<Seq<char>> {
    if c.destination_brain_id@ != brain_id || c.status != SharedFolderConnectionStatus::Active
        || !seq_has(c.member_npubs@, removed) {
        Some("member removal Mount rotation does not match active destination participation"@)
    } else if rot.revoke_mount != (c.destination_admin_npub@ == removed) {
        if c.destination_admin_npub@ == removed {
            Some("removing a Mount's destination controller must revoke the Mount"@)
        } else {
            Some("removing a non-controller Member must preserve the Mount"@)
        }
    } else if exists|k: int|
        0 <= k < earlier.len() && (#[trigger] earlier[k]).connection.source_brain_id@
            == c.source_brain_id@ && earlier[k].connection.source_folder_id@
            == c.source_folder_id@ {
        Some("member removal cannot rotate the same mounted source Folder twice"@)
    } else if c.source_brain_id@ == brain_id && native_folder_ids.contains(c.source_folder_id@) {
        Some("member removal cannot rotate one Folder as both native and mounted access"@)
    } else {
        None
    }
}

/// The removal targets of a Mount hold source Folder access.
pub open spec fn targets_have_access(source: StoredBrain, folder_id: Seq<char>, targets: Seq<Seq<char>>) -> bool {
    forall|t: int| 0 <= t < targets.len() ==> has_explicit_access(source, folder_id, #[trigger] targets[t])
}

/// Participants whose Mount-managed source access the removal takes away:
/// every managed participant when the Mount's destination controller
/// leaves, only the leaving participant otherwise (when its access is
/// managed).
pub open spec fn targets_view(c: StoredSharedFolderConnection, removed: Seq<char>) -> Seq<Seq<char>> {
    if c.destination_admin_npub@ == removed {
        c.managed_access_npubs@.map_values(|s: String| s@)
    } else if seq_has(c.managed_access_npubs@, removed) {
        seq![removed]
    } else {
        Seq::empty()
    }
}

/// The key part of a Mount rotation with removal targets is acceptable.
pub open spec fn mount_keys_ok(
    rot: MemberMountRotation,
    ctx: MountRotationContext,
    actor: Seq<char>,
) -> bool {
    match folder_with_id(ctx.source.brain.folders@, ctx.connection.source_folder_id@) {
        None => false,
        Some(folder) => {
            let f = rotated(folder, rot.new_key_version);
            &&& rot.new_key_version == folder.current_key_version + 1
            &&& first_fault(rot.grants@, rotation_grant_check(f, actor)) is None
            &&& crate::grants::recipients_match(rot.grants@, ctx.required_after@)
            &&& crate::rotation::covers_each_live_object_once(
                live_objects(ctx.source_objects@, ctx.connection.source_folder_id@),
                rot.reencrypted_records@,
            )
            &&& crate::rotation::each_record_advances(
                live_objects(ctx.source_objects@, ctx.connection.source_folder_id@),
                rot.reencrypted_records@,
            )
        },
    }
}

/// The error a Mount rotation with removal targets reports on its key part.
pub open spec fn mount_keys_outcome(
    r: Result<(), StoreError>,
    rot: MemberMountRotation,
    ctx: MountRotationContext,
    targets: Seq<Seq<char>>,
    actor: Seq<char>,
) -> bool {
    let folder_id = ctx.connection.source_folder_id@;
    match folder_with_id(ctx.source.brain.folders@, folder_id) {
        None => r matches Err(e) && is_missing_folder(e, folder_id),
        Some(folder) => if rot.new_key_version != folder.current_key_version + 1 {
            r matches Err(e) && is_broken(e, "member removal Mount rotation must use the next key version"@)
        } else if !targets_have_access(ctx.source, folder_id, targets) {
            r matches Err(e) && is_broken(e, "member removal Mount target does not have source Folder access"@)
        } else {
            let f = rotated(folder, rot.new_key_version);
            match first_fault(rot.grants@, rotation_grant_check(f, actor)) {
                Some(m) => r matches Err(e) && is_broken(e, m),
                None => if !crate::grants::recipients_match(rot.grants@, ctx.required_after@) {
                    r matches Err(e) && is_broken(e, "connection rotation grants must exactly match remaining recipients"@)
                } else {
                    rotation_records_outcome(
                        r,
                        live_objects(ctx.source_objects@, folder_id),
                        rot.reencrypted_records@,
                    )
                },
            }
        },
    }
}

/// Check a native Folder rotation of a Member removal.
fn check_folder_rotation(
    stored: &StoredBrain,
    rot: &MemberFolderRotation,
    required: &Vec<String>,
    objects: &Vec<CurrentEncryptedObject>,
) -> (r: Result<(), StoreError>)
    ensures
        folder_rotation_outcome(r, *stored, *rot, required@, objects@),
        r is Ok <==> folder_rotation_ok(*stored, *rot, required@, objects@),
{
    let idx = match find_folder(&stored.brain.folders, rot.folder_id.as_str()) {
        None => {
            return Err(StoreError::MissingFolder { folder_id: rot.folder_id.clone() });
        },
        Some(i) => i,
    };
    let folder = &stored.brain.folders[idx];
    if folder.current_key_version == u32::MAX || rot.new_key_version != folder.current_key_version + 1 {
        return Err(broken("member removal must rotate to each Folder's next key version"));
    }
    let mut rotated_folder = copy_folder(folder);
    rotated_folder.current_key_version = rot.new_key_version;
    let agent = match &stored.personal_agent {
        Some(a) => Some(a.agent_npub.as_str()),
        None => None,
    };
    validate_folder_grants(&stored.brain, &rotated_folder, required, &rot.grants, agent)?;
    let live = live_objects_of(objects, rot.folder_id.as_str());
    validate_rotation_records(&live, &rot.reencrypted_records)
}

/// Check the key part of a Mount rotation that takes access away.
fn check_mount_keys(
    rot: &MemberMountRotation,
    ctx: &MountRotationContext,
    targets: &Vec<String>,
    actor: &str,
) -> (r: Result<(), StoreError>)
    ensures
        mount_keys_outcome(r, *rot, *ctx, targets@.map_values(|s: String| s@), actor@),
        r is Ok <==> (mount_keys_ok(*rot, *ctx, actor@) && targets_have_access(
            ctx.source,
            ctx.connection.source_folder_id@,
            targets@.map_values(|s: String| s@),
        )),
{
    let folder_id = ctx.connection.source_folder_id.as_str();
    let idx = match find_folder(&ctx.source.brain.folders, folder_id) {
        None => {
            return Err(StoreError::MissingFolder { folder_id: folder_id.to_owned() });
        },
        Some(i) => i,
    };
    let folder = &ctx.source.brain.folders[idx];
    if folder.current_key_version == u32::MAX || rot.new_key_version != folder.current_key_version + 1 {
        return Err(broken("member removal Mount rotation must use the next key version"));
    }
    let mut t: usize = 0;
    while t < targets.len()
        invariant
            t <= targets.len(),
            forall|k: int| 0 <= k < t ==> has_explicit_access(ctx.source, folder_id@, (#[trigger] targets@[k])@),
            targets@.map_values(|s: String| s@).len() == targets.len(),
            forall|k: int| 0 <= k < targets.len() ==> targets@.map_values(|s: String| s@)[k] == (#[trigger] targets@[k])@,
            idx < ctx.source.brain.folders.len(),
            folder_with_id(ctx.source.brain.folders@, folder_id@) == Some(ctx.source.brain.folders@[idx as int]),
            rot.new_key_version == ctx.source.brain.folders@[idx as int].current_key_version + 1,
            folder_id@ == ctx.connection.source_folder_id@,
        decreases targets.len() - t,
    {
        if !stored_has_explicit_access(&ctx.source, folder_id, targets[t].as_str()) {
            assert(targets@.map_values(|s: String| s@)[t as int] == targets@[t as int]@);
            assert(!targets_have_access(ctx.source, folder_id@, targets@.map_values(|s: String| s@)));
            return Err(broken("member removal Mount target does not have source Folder access"));
        }
        t += 1;
    }
    let mut rotated_folder = copy_folder(folder);
    rotated_folder.current_key_version = rot.new_key_version;
    validate_connection_rotation_grants(&rotated_folder, &ctx.required_after, &rot.grants, actor)?;
    let live = live_objects_of(&ctx.source_objects, folder_id);
    validate_rotation_records(&live, &rot.reencrypted_records)
}

/// A native rotation with the required recipients of its rotated Folder.
#[derive(Debug, Clone, PartialEq, Eq)]
pub struct PreparedFolderRotation {
    pub rotation: MemberFolderRotation,
    /// Required recipients of the rotated Folder once the member is gone.
    pub required_after: Vec<String>,
}

/// A Mount rotation with what the store loaded for it.
#[derive(Debug, Clone, PartialEq, Eq)]
pub struct PreparedMountRotation {
    pub rotation: MemberMountRotation,
    pub context: MountRotationContext,
}

pub open spec fn prepared_folder_ids(ps: Seq<PreparedFolderRotation>) -> Seq<Seq<char>> {
    ps.map_values(|p: PreparedFolderRotation| p.rotation.folder_id@)
}

pub open spec fn prepared_connection_ids(ps: Seq<PreparedMountRotation>) -> Seq<Seq<char>> {
    ps.map_values(|p: PreparedMountRotation| p.rotation.connection_id@)
}

pub open spec fn contexts_of(ps: Seq<PreparedMountRotation>) -> Seq<MountRotationContext> {
    ps.map_values(|p: PreparedMountRotation| p.context)
}

pub open spec fn native_ok(stored: StoredBrain, p: PreparedFolderRotation, objects: Seq<CurrentEncryptedObject>) -> bool {
    folder_rotation_ok(stored, p.rotation, p.required_after@, objects)
}

/// The j-th Mount rotation is acceptable.
pub open spec fn mount_ok(
    stored: StoredBrain,
    actor: Seq<char>,
    removed: Seq<char>,
    folders: Seq<PreparedFolderRotation>,
    mounts: Seq<PreparedMountRotation>,
    j: int,
) -> bool {
    let p = mounts[j];
    &&& mount_match_fault(stored.brain.id@, removed, p.rotation, p.context.connection, contexts_of(mounts.take(j)), prepared_folder_ids(folders)) is None
    &&& (targets_view(p.context.connection, removed).len() == 0 || (mount_keys_ok(p.rotation, p.context, actor)
        && targets_have_access(p.context.source, p.context.connection.source_folder_id@, targets_view(p.context.connection, removed))))
}

/// The error the j-th Mount rotation reports when it is not acceptable.
pub open spec fn mount_outcome(
    r: Result<(), StoreError>,
    stored: StoredBrain,
    actor: Seq<char>,
    removed: Seq<char>,
    folders: Seq<PreparedFolderRotation>,
    mounts: Seq<PreparedMountRotation>,
    j: int,
) -> bool {
    let p = mounts[j];
    match mount_match_fault(stored.brain.id@, removed, p.rotation, p.context.connection, contexts_of(mounts.take(j)), prepared_folder_ids(folders)) {
        Some(m) => r matches Err(e) && is_broken(e, m),
        None => mount_keys_outcome(r, p.rotation, p.context, targets_view(p.context.connection, removed), actor),
    }
}

/// Outcome of validating a Member removal.
pub open spec fn member_removal_outcome(
    r: Result<Vec<Vec<String>>, StoreError>,
    stored: StoredBrain,
    actor: Seq<char>,
    removed: Seq<char>,
    folders: Seq<PreparedFolderRotation>,
    mounts: Seq<PreparedMountRotation>,
    readable_folder_ids: Seq<String>,
    objects: Seq<CurrentEncryptedObject>,
    expected_mount_ids: Seq<String>,
) -> bool {
    if is_admin(stored.brain, removed) {
        r matches Err(e) && is_broken(e, "remove admin role before removing member"@)
    } else if !is_member(stored.brain, removed) {
        r matches Err(e) && is_broken(e, "brain member does not exist"@)
    } else if !exactly_once(readable_folder_ids, prepared_folder_ids(folders)) {
        r matches Err(e) && is_broken(e, "member removal requires exactly one rotation for every readable Folder"@)
    } else if !exactly_once(expected_mount_ids, prepared_connection_ids(mounts)) {
        r matches Err(e) && is_broken(e, "member removal requires exactly one rotation for every active Mount participation"@)
    } else if exists|i: int| 0 <= i < folders.len() && !native_ok(stored, #[trigger] folders[i], objects) {
        r is Err && exists|i: int| 0 <= i < folders.len() && !native_ok(stored, #[trigger] folders[i], objects)
            && (forall|k: int| 0 <= k < i ==> native_ok(stored, #[trigger] folders[k], objects))
            && folder_rotation_outcome(unit_of(r), stored, folders[i].rotation, folders[i].required_after@, objects)
    } else if exists|j: int| 0 <= j < mounts.len() && !mount_ok(stored, actor, removed, folders, mounts, j) {
        r is Err && exists|j: int| 0 <= j < mounts.len() && !mount_ok(stored, actor, removed, folders, mounts, j)
            && (forall|k: int| 0 <= k < j ==> mount_ok(stored, actor, removed, folders, mounts, k))
            && mount_outcome(unit_of(r), stored, actor, removed, folders, mounts, j)
    } else {
        r matches Ok(targets) && targets.len() == mounts.len() && forall|j: int| 0 <= j < mounts.len()
            ==> (#[trigger] targets@[j])@.map_values(|s: String| s@) == targets_view(mounts[j].context.connection, removed)
    }
}

pub(crate) fn ids_exactly_once(expected: &Vec<String>, supplied: &Vec<&str>) -> (r: bool)
    ensures
        r == exactly_once(expected@, supplied@.map_values(|s: &str| s@)),
{
    let ghost sv = supplied@.map_values(|s: &str| s@);
    let mut j: usize = 0;
    while j < supplied.len()
        invariant
            j <= supplied.len(),
            sv == supplied@.map_values(|s: &str| s@),
            forall|a: int, b: int| 0 <= a < b < j ==> sv[a] != sv[b],
        decreases supplied.len() - j,
    {
        let mut i: usize = 0;
        while i < j
            invariant
                i <= j < supplied.len(),
                sv == supplied@.map_values(|s: &str| s@),
                forall|a: int, b: int| 0 <= a < b < j ==> sv[a] != sv[b],
                forall|a: int| 0 <= a < i ==> sv[a] != sv[j as int],
            decreases j - i,
        {
            if str_eq(supplied[i], supplied[j]) {
                assert(sv[i as int] == sv[j as int]);
                return false;
            }
            i += 1;
        }
        j += 1;
    }
    let mut k: usize = 0;
    while k < expected.len()
        invariant
            k <= expected.len(),
            sv == supplied@.map_values(|s: &str| s@),
            forall|a: int| 0 <= a < k ==> sv.contains((#[trigger] expected@[a])@),
        decreases expected.len() - k,
    {
        let mut found = false;
        let mut m: usize = 0;
        while m < supplied.len()
            invariant
                m <= supplied.len(),
                k < expected.len(),
                sv == supplied@.map_values(|s: &str| s@),
                found ==> sv.contains(expected@[k as int]@),
                !found ==> forall|a: int| 0 <= a < m ==> sv[a] != expected@[k as int]@,
            decreases supplied.len() - m,
        {
            if !found && str_eq(supplied[m], expected[k].as_str()) {
                assert(sv[m as int] == expected@[k as int]@);
                found = true;
            }
            m += 1;
        }
        if !found {
            assert(seq_has(expected@, expected@[k as int]@));
            return false;
        }
        k += 1;
    }
    let mut n: usize = 0;
    while n < supplied.len()
        invariant
            n <= supplied.len(),
            sv == supplied@.map_values(|s: &str| s@),
            forall|a: int| 0 <= a < expected.len() ==> sv.contains((#[trigger] expected@[a])@),
            forall|a: int| 0 <= a < n ==> seq_has(expected@, #[trigger] sv[a]),
        decreases supplied.len() - n,
    {
        if !texts_contain(expected, supplied[n]) {
            assert(sv.contains(sv[n as int]));
            return false;
        }
        n += 1;
    }
    assert forall|x: Seq<char>| seq_has(expected@, x) <==> sv.contains(x) by {
        if seq_has(expected@, x) {
            let a = choose|a: int| 0 <= a < expected@.len() && (#[trigger] expected@[a])@ == x;
        }
        if sv.contains(x) {
            let a = choose|a: int| 0 <= a < sv.len() && sv[a] == x;
            assert(seq_has(expected@, sv[a]));
        }
    }
    true
}

pub(crate) fn folder_ids_of(ps: &Vec<PreparedFolderRotation>) -> (r: Vec<&str>)
    ensures
        r@.map_values(|s: &str| s@) == prepared_folder_ids(ps@),
{
    let mut r: Vec<&str> = Vec::new();
    let mut i: usize = 0;
    while i < ps.len()
        invariant
            i <= ps.len(),
            r.len() == i,
            forall|k: int| 0 <= k < i ==> (#[trigger] r@[k])@ == ps@[k].rotation.folder_id@,
        decreases ps.len() - i,
    {
        r.push(ps[i].rotation.folder_id.as_str());
        i += 1;
    }
    assert(r@.map_values(|s: &str| s@) =~= prepared_folder_ids(ps@));
    r
}

fn connection_ids_of(ps: &Vec<PreparedMountRotation>) -> (r: Vec<&str>)
    ensures
        r@.map_values(|s: &str| s@) == prepared_connection_ids(ps@),
{
    let mut r: Vec<&str> = Vec::new();
    let mut i: usize = 0;
    while i < ps.len()
        invariant
            i <= ps.len(),
            r.len() == i,
            forall|k: int| 0 <= k < i ==> (#[trigger] r@[k])@ == ps@[k].rotation.connection_id@,
        decreases ps.len() - i,
    {
        r.push(ps[i].rotation.connection_id.as_str());
        i += 1;
    }
    assert(r@.map_values(|s: &str| s@) =~= prepared_connection_ids(ps@));
    r
}

/// Check how one Mount rotation matches the removal, before any key checks.
#[verifier::loop_isolation(false)]
fn check_mount_match(
    brain_id: &str,
    removed: &str,
    mounts: &Vec<PreparedMountRotation>,
    j: usize,
    native_ids: &Vec<&str>,
) -> (r: Result<(), StoreError>)
    requires
        j < mounts.len(),
    ensures
        match mount_match_fault(
            brain_id@,
            removed@,
            mounts@[j as int].rotation,
            mounts@[j as int].context.connection,
            contexts_of(mounts@.take(j as int)),
            native_ids@.map_values(|s: &str| s@),
        ) {
            None => r is Ok,
            Some(m) => r matches Err(e) && is_broken(e, m),
        },
{
    let rot = &mounts[j].rotation;
    let c = &mounts[j].context.connection;
    if !str_eq(c.destination_brain_id.as_str(), brain_id) || c.status != SharedFolderConnectionStatus::Active
        || !texts_contain(&c.member_npubs, removed) {
        return Err(broken("member removal Mount rotation does not match active destination participation"));
    }
    let must_revoke = str_eq(c.destination_admin_npub.as_str(), removed);
    if rot.revoke_mount != must_revoke {
        if must_revoke {
            return Err(broken("removing a Mount's destination controller must revoke the Mount"));
        } else {
            return Err(broken("removing a non-controller Member must preserve the Mount"));
        }
    }
    let ghost earlier = contexts_of(mounts@.take(j as int));
    let mut k: usize = 0;
    while k < j
        invariant
            k <= j < mounts.len(),
            c == mounts@[j as int].context.connection,
            earlier == contexts_of(mounts@.take(j as int)),
            forall|a: int| 0 <= a < k ==> !((#[trigger] earlier[a]).connection.source_brain_id@ == c.source_brain_id@
                && earlier[a].connection.source_folder_id@ == c.source_folder_id@),
        decreases j - k,
    {
        let d = &mounts[k].context.connection;
        assert(earlier[k as int] == mounts@[k as int].context);
        if str_eq(d.source_brain_id.as_str(), c.source_brain_id.as_str()) && str_eq(
            d.source_folder_id.as_str(),
            c.source_folder_id.as_str(),
        ) {
            return Err(broken("member removal cannot rotate the same mounted source Folder twice"));
        }
        k += 1;
    }
    if str_eq(c.source_brain_id.as_str(), brain_id) {
        let ghost nv = native_ids@.map_values(|s: &str| s@);
        let mut n: usize = 0;
        while n < native_ids.len()
            invariant
                n <= native_ids.len(),
                nv == native_ids@.map_values(|s: &str| s@),
                forall|a: int| 0 <= a < n ==> #[trigger] nv[a] != c.source_folder_id@,
            decreases native_ids.len() - n,
        {
            if str_eq(native_ids[n], c.source_folder_id.as_str()) {
                assert(nv[n as int] == c.source_folder_id@);
                return Err(broken("member removal cannot rotate one Folder as both native and mounted access"));
            }
            n += 1;
        }
        assert(!nv.contains(c.source_folder_id@));
    }
    Ok(())
}

/// Validate a Member removal before anything is written: the member is not
/// an admin, exactly one rotation is supplied for every Folder the member
/// can read and for every active Mount participation, each native rotation
/// advances its Folder one key version with exact grants and re-encrypted
/// records, and each Mount rotation matches its connection, revokes the
/// Mount exactly when the member controls it, rotates each mounted source
/// Folder once, and, where it takes Mount-managed access away, advances the
/// source Folder's key with exact grants and records. On success the result
/// lists, per Mount rotation, the participants whose managed access goes.
#[verifier::loop_isolation(false)]
pub fn validate_member_removal(
    stored: &StoredBrain,
    actor_user_id: &str,
    removed_user_id: &str,
    rotations: &Vec<PreparedFolderRotation>,
    mount_rotations: &Vec<PreparedMountRotation>,
    readable_folder_ids: &Vec<String>,
    current_objects: &Vec<CurrentEncryptedObject>,
    expected_mount_ids: &Vec<String>,
) -> (r: Result<Vec<Vec<String>>, StoreError>)
    ensures
        member_removal_outcome(
            r,
            *stored,
            actor_user_id@,
            removed_user_id@,
            rotations@,
            mount_rotations@,
            readable_folder_ids@,
            current_objects@,
            expected_mount_ids@,
        ),
{
    if brain_is_admin(&stored.brain, removed_user_id) {
        return Err(broken("remove admin role before removing member"));
    }
    if !brain_is_member(&stored.brain, removed_user_id) {
        return Err(broken("brain member does not exist"));
    }
    let native_ids = folder_ids_of(rotations);
    if !ids_exactly_once(readable_folder_ids, &native_ids) {
        return Err(broken("member removal requires exactly one rotation for every readable Folder"));
    }
    let mount_ids = connection_ids_of(mount_rotations);
    if !ids_exactly_once(expected_mount_ids, &mount_ids) {
        return Err(
            broken("member removal requires exactly one rotation for every active Mount participation"),
        );
    }
    let mut i: usize = 0;
    while i < rotations.len()
        invariant
            i <= rotations.len(),
            forall|k: int| 0 <= k < i ==> native_ok(*stored, #[trigger] rotations@[k], current_objects@),
        decreases rotations.len() - i,
    {
        let p = &rotations[i];
        let checked = check_folder_rotation(stored, &p.rotation, &p.required_after, current_objects);
        if let Err(e) = checked {
            assert(!native_ok(*stored, rotations@[i as int], current_objects@));
            return Err(e);
        }
        i += 1;
    }
    let mut targets: Vec<Vec<String>> = Vec::new();
    let mut j: usize = 0;
    while j < mount_rotations.len()
        invariant
            j <= mount_rotations.len(),
            native_ids@.map_values(|s: &str| s@) == prepared_folder_ids(rotations@),
            forall|k: int| 0 <= k < rotations.len() ==> native_ok(*stored, #[trigger] rotations@[k], current_objects@),
            forall|k: int| 0 <= k < j ==> mount_ok(*stored, actor_user_id@, removed_user_id@, rotations@, mount_rotations@, k),
            targets.len() == j,
            forall|k: int| 0 <= k < j ==> (#[trigger] targets@[k])@.map_values(|s: String| s@)
                == targets_view(mount_rotations@[k].context.connection, removed_user_id@),
        decreases mount_rotations.len() - j,
    {
        let matched = check_mount_match(stored.brain.id.as_str(), removed_user_id, mount_rotations, j, &native_ids);
        if let Err(e) = matched {
            assert(!mount_ok(*stored, actor_user_id@, removed_user_id@, rotations@, mount_rotations@, j as int));
            return Err(e);
        }
        let p = &mount_rotations[j];
        let removed = removal_targets(&p.context.connection, removed_user_id);
        proof {
            let c = p.context.connection;
            if c.destination_admin_npub@ != removed_user_id@ && seq_has(c.managed_access_npubs@, removed_user_id@) {
                assert(removed@.map_values(|s: String| s@) =~= seq![removed_user_id@]);
            } else {
                assert(removed@.map_values(|s: String| s@) =~= targets_view(c, removed_user_id@));
            }
        }
        if removed.len() > 0 {
            let keys = check_mount_keys(&p.rotation, &p.context, &removed, actor_user_id);
            if let Err(e) = keys {
                assert(!mount_ok(*stored, actor_user_id@, removed_user_id@, rotations@, mount_rotations@, j as int));
                return Err(e);
            }
        }
        targets.push(removed);
        j += 1;
    }
    Ok(targets)
}

} // verus!
