//! Converging an Organization Brain collaborator to member and admin, with
//! the client-prepared current Folder Key Grants it supplied.
use vstd::prelude::*;

use crate::error::{broken, is_broken, is_missing_folder, StoreError};
use crate::grants::{
    grant_metadata_fault, grant_triple, grants_have_triple, grants_triple, validate_grant_metadata,
};
use crate::kinds::{BrainKind, FolderAccessMode};
use crate::model::{
    brain_is_admin, brain_is_member, find_folder, folder_with_id, is_admin, is_member, Folder,
    FolderKeyGrantMetadata, StoredBrain,
};
use crate::text::str_eq;

verus! {

/// Why a collaboration grant for a Folder that exists is refused, if it is:
/// its metadata, an issuer that is neither an admin nor the target (who
/// becomes an admin), a key version other than the Folder's current one, a
/// recipient other than the target, or an owner Folder.
pub open spec fn collaboration_grant_fault(
    stored: StoredBrain,
    target: Seq<char>,
    folder: Folder,
    g: FolderKeyGrantMetadata,
) -> Option<Seq<char>> {
    if grant_metadata_fault(g) is Some {
        grant_metadata_fault(g)
    } else if !(is_admin(stored.brain, g.issuer_npub@) || g.issuer_npub@ == target) {
        Some("organization folder grants must be issued by a brain admin"@)
    } else if g.key_version != folder.current_key_version {
        Some("collaboration grant key version must match current Folder key version"@)
    } else if g.recipient_npub@ != target {
        Some("collaboration grant recipient must match target"@)
    } else if folder.access == FolderAccessMode::Owner {
        Some("owner Folders do not accept collaboration grants"@)
    } else {
        None
    }
}

/// The grant is refused: its Folder is missing or it has a fault.
pub open spec fn collaboration_grant_fails(stored: StoredBrain, target: Seq<char>, g: FolderKeyGrantMetadata) -> bool {
    match folder_with_id(stored.brain.folders@, g.folder_id@) {
        None => true,
        Some(f) => collaboration_grant_fault(stored, target, f, g) is Some,
    }
}

/// The error reported for a refused grant.
pub open spec fn collaboration_grant_error(
    e: StoreError,
    stored: StoredBrain,
    target: Seq<char>,
    g: FolderKeyGrantMetadata,
) -> bool {
    match folder_with_id(stored.brain.folders@, g.folder_id@) {
        None => is_missing_folder(e, g.folder_id@),
        Some(f) => is_broken(e, collaboration_grant_fault(stored, target, f, g)->0),
    }
}

/// What converging the target writes: membership and admin rows it lacks,
/// for each supplied grant whether it is new (no stored grant has its
/// Folder, recipient and key version) and whether a new grant of a
/// restricted Folder also records the target's explicit access, and whether
/// the admin access-change record is appended.
#[derive(Debug, Clone, PartialEq, Eq)]
pub struct OrganizationAdminPlan {
    pub add_member: bool,
    pub add_admin: bool,
    pub write_grant: Vec<bool>,
    pub record_folder_access: Vec<bool>,
    pub write_admin_record: bool,
}

/// The plan writes exactly what the stored state lacks.
pub open spec fn admin_plan_matches(
    plan: OrganizationAdminPlan,
    stored: StoredBrain,
    target: Seq<char>,
    grants: Seq<FolderKeyGrantMetadata>,
    has_admin_record: bool,
) -> bool {
    &&& plan.add_member == !is_member(stored.brain, target)
    &&& plan.add_admin == !is_admin(stored.brain, target)
    &&& plan.write_admin_record == (plan.add_admin && has_admin_record)
    &&& plan.write_grant@.len() == grants.len()
    &&& plan.record_folder_access@.len() == grants.len()
    &&& forall|k: int|
        0 <= k < grants.len() ==> #[trigger] plan.write_grant@[k] == !grants_triple(
            stored.grants@,
            grant_triple(grants[k]),
        )
    &&& forall|k: int|
        0 <= k < grants.len() ==> #[trigger] plan.record_folder_access@[k] == (plan.write_grant@[k]
            && folder_with_id(stored.brain.folders@, grants[k].folder_id@)->0.access == FolderAccessMode::Restricted)
}

/// Outcome of converging a collaborator: only an Organization Brain; the
/// first refused grant stops it with its error; otherwise the plan.
pub open spec fn organization_admin_outcome(
    r: Result<OrganizationAdminPlan, StoreError>,
    stored: StoredBrain,
    target: Seq<char>,
    grants: Seq<FolderKeyGrantMetadata>,
    has_admin_record: bool,
) -> bool {
    if stored.brain.kind != BrainKind::Organization {
        r matches Err(e) && is_broken(e, "organization collaboration requires an organization brain"@)
    } else if exists|k: int| 0 <= k < grants.len() && collaboration_grant_fails(stored, target, #[trigger] grants[k]) {
        r matches Err(e) && exists|k: int|
            0 <= k < grants.len() && collaboration_grant_fails(stored, target, #[trigger] grants[k]) && (forall|j: int|
                0 <= j < k ==> !collaboration_grant_fails(stored, target, #[trigger] grants[j])) && collaboration_grant_error(
                e,
                stored,
                target,
                grants[k],
            )
    } else {
        r matches Ok(plan) && admin_plan_matches(plan, stored, target, grants, has_admin_record)
    }
}

/// Check one collaboration grant against its Folder.
fn check_collaboration_grant(stored: &StoredBrain, target: &str, g: &FolderKeyGrantMetadata) -> (r: Result<
    usize,
    StoreError,
>)
    ensures
        match r {
            Ok(i) => !collaboration_grant_fails(*stored, target@, *g) && i < stored.brain.folders.len()
                && folder_with_id(stored.brain.folders@, g.folder_id@) == Some(stored.brain.folders@[i as int]),
            Err(e) => collaboration_grant_fails(*stored, target@, *g) && collaboration_grant_error(
                e,
                *stored,
                target@,
                *g,
            ),
        },
{
    let i = match find_folder(&stored.brain.folders, g.folder_id.as_str()) {
        None => {
            return Err(StoreError::MissingFolder { folder_id: g.folder_id.clone() });
        },
        Some(i) => i,
    };
    let folder = &stored.brain.folders[i];
    match validate_grant_metadata(g) {
        Err(e) => {
            return Err(e);
        },
        Ok(()) => {},
    }
    if !brain_is_admin(&stored.brain, g.issuer_npub.as_str()) && !str_eq(g.issuer_npub.as_str(), target) {
        return Err(broken("organization folder grants must be issued by a brain admin"));
    }
    if g.key_version != folder.current_key_version {
        return Err(broken("collaboration grant key version must match current Folder key version"));
    }
    if !str_eq(g.recipient_npub.as_str(), target) {
        return Err(broken("collaboration grant recipient must match target"));
    }
    if folder.access == FolderAccessMode::Owner {
        return Err(broken("owner Folders do not accept collaboration grants"));
    }
    Ok(i)
}

/// Converge a target to member and admin of an Organization Brain with the
/// current Folder Key Grants the client prepared for it: every grant must
/// name an existing Folder at its current key version, be addressed to the
/// target, be issued by an admin (the target counts as one) and not be for
/// an owner Folder. Grants the store already holds are not written again.
pub fn plan_organization_admin_grants(
    stored: &StoredBrain,
    target: &str,
    grants: &Vec<FolderKeyGrantMetadata>,
    has_admin_record: bool,
) -> (r: Result<OrganizationAdminPlan, StoreError>)
    ensures
        organization_admin_outcome(r, *stored, target@, grants@, has_admin_record),
{
    if stored.brain.kind != BrainKind::Organization {
        return Err(broken("organization collaboration requires an organization brain"));
    }
    let add_member = !brain_is_member(&stored.brain, target);
    let add_admin = !brain_is_admin(&stored.brain, target);
    let mut write_grant: Vec<bool> = Vec::new();
    let mut record_folder_access: Vec<bool> = Vec::new();
    let mut k: usize = 0;
    while k < grants.len()
        invariant
            stored.brain.kind == BrainKind::Organization,
            k <= grants.len(),
            write_grant@.len() == k,
            record_folder_access@.len() == k,
            forall|j: int| 0 <= j < k ==> !collaboration_grant_fails(*stored, target@, #[trigger] grants@[j]),
            forall|j: int|
                0 <= j < k ==> #[trigger] write_grant@[j] == !grants_triple(stored.grants@, grant_triple(grants@[j])),
            forall|j: int|
                0 <= j < k ==> #[trigger] record_folder_access@[j] == (write_grant@[j] && folder_with_id(
                    stored.brain.folders@,
                    grants@[j].folder_id@,
                )->0.access == FolderAccessMode::Restricted),
        decreases grants.len() - k,
    {
        let g = &grants[k];
        let i = match check_collaboration_grant(stored, target, g) {
            Err(e) => {
                proof {
                    assert(collaboration_grant_fails(*stored, target@, grants@[k as int]));
                }
                return Err(e);
            },
            Ok(i) => i,
        };
        let fresh = !grants_have_triple(
            &stored.grants,
            g.folder_id.as_str(),
            g.recipient_npub.as_str(),
            g.key_version,
        );
        write_grant.push(fresh);
        record_folder_access.push(fresh && stored.brain.folders[i].access == FolderAccessMode::Restricted);
        k += 1;
    }
    Ok(
        OrganizationAdminPlan {
            add_member,
            add_admin,
            write_grant,
            record_folder_access,
            write_admin_record: add_admin && has_admin_record,
        },
    )
}

} // verus!
