//! What each standing in a Brain is entitled to: who reads a Folder, which
//! Folder Key Grants an export carries, which Folders a redemption or a
//! departure marks for key delivery, and what makes a bootstrap an exact
//! retry.
use vstd::prelude::*;

use crate::access::{folder_visible, native_access};
use crate::bootstrap::{members_view, organization_existing_outcome};
use crate::departure::pending_folders;
use crate::error::StoreError;
use crate::export::export_grants;
use crate::invite_tokens::wrap_folders;
use crate::kinds::{BrainInviteTokenRole, FolderAccessMode};
use crate::model::{folder_with_id, has_explicit_access, is_admin, is_personal_agent, is_member, is_owner, seq_has, Brain, BrainMember, Folder, FolderKeyGrantMetadata, StoredBrain};

verus! {

/// Native Folder access by standing: the owner reads every Folder, an admin
/// every Folder but an Owner-only one, a Member every All-Members Folder;
/// someone with none of these standings reads nothing natively, and a
/// Member without admin or owner standing reads natively only All-Members
/// Folders.
pub proof fn lemma_native_access_by_standing(brain: Brain, access: FolderAccessMode, u: Seq<char>)
    ensures
        is_owner(brain, u) ==> native_access(brain, access, u),
        is_admin(brain, u) && access != FolderAccessMode::Owner ==> native_access(brain, access, u),
        is_member(brain, u) && access == FolderAccessMode::AllMembers ==> native_access(brain, access, u),
        !is_owner(brain, u) && !is_admin(brain, u) && !is_member(brain, u) ==> !native_access(brain, access, u),
        !is_owner(brain, u) && !is_admin(brain, u) && access != FolderAccessMode::AllMembers ==> !native_access(
            brain,
            access,
            u,
        ),
{
}

/// Every Member of a Brain reads every existing All-Members Folder of it.
pub proof fn lemma_members_read_all_members_folders(stored: StoredBrain, folder_id: Seq<char>, u: Seq<char>)
    requires
        is_member(stored.brain, u),
        folder_with_id(stored.brain.folders@, folder_id) matches Some(f) && f.access == FolderAccessMode::AllMembers,
    ensures
        folder_visible(stored, folder_id, u),
{
}

/// Who reads a Folder, by standing: the Brain must have the Folder, and the
/// reader is the Personal Agent, holds explicit access to it, is the owner,
/// is an admin and the Folder is not Owner-only, or is a Member and the
/// Folder is All-Members.
pub proof fn lemma_folder_readers(stored: StoredBrain, folder_id: Seq<char>, u: Seq<char>)
    ensures
        folder_visible(stored, folder_id, u) <==> (folder_with_id(stored.brain.folders@, folder_id) matches Some(f) && (
        is_personal_agent(stored, u) || has_explicit_access(stored, folder_id, u) || is_owner(stored.brain, u) || (
        is_admin(stored.brain, u) && f.access != FolderAccessMode::Owner) || (is_member(stored.brain, u) && f.access
            == FolderAccessMode::AllMembers))),
{
}

/// Nobody reads a Folder the Brain does not have.
pub proof fn lemma_missing_folder_is_unreadable(stored: StoredBrain, folder_id: Seq<char>, u: Seq<char>)
    requires
        folder_with_id(stored.brain.folders@, folder_id) is None,
    ensures
        !folder_visible(stored, folder_id, u),
{
}

/// An export carries every grant an admin's Brain holds, and for anyone
/// else exactly the grants issued to them: each grant to the actor is in
/// it, and nothing else is.
pub proof fn lemma_export_grants_are_the_actors(gs: Seq<FolderKeyGrantMetadata>, actor: Seq<char>, admin: bool)
    ensures
        forall|i: int|
            0 <= i < gs.len() && (admin || gs[i].recipient_npub@ == actor) ==> #[trigger] export_grants(
                gs,
                actor,
                admin,
            ).contains(gs[i]),
        forall|g: FolderKeyGrantMetadata| #[trigger]
            export_grants(gs, actor, admin).contains(g) ==> gs.contains(g) && (admin || g.recipient_npub@ == actor),
        admin ==> export_grants(gs, actor, admin) == gs,
    decreases gs.len(),
{
    if gs.len() > 0 {
        let init = gs.drop_last();
        lemma_export_grants_are_the_actors(init, actor, admin);
        let prev = export_grants(init, actor, admin);
        let cur = export_grants(gs, actor, admin);
        assert forall|i: int| 0 <= i < gs.len() && (admin || gs[i].recipient_npub@ == actor) implies #[trigger] cur.contains(
            gs[i],
        ) by {
            if i < gs.len() - 1 {
                assert(init[i] == gs[i]);
                assert(prev.contains(init[i]));
                let k = choose|k: int| 0 <= k < prev.len() && prev[k] == init[i];
                if admin || gs.last().recipient_npub@ == actor {
                    assert(cur[k] == prev[k]);
                } else {
                    assert(cur == prev);
                }
            } else {
                assert(cur[cur.len() - 1] == gs.last());
            }
        }
        assert forall|g: FolderKeyGrantMetadata| #[trigger] cur.contains(g) implies gs.contains(g) && (admin
            || g.recipient_npub@ == actor) by {
            let k = choose|k: int| 0 <= k < cur.len() && cur[k] == g;
            if k < prev.len() {
                assert(prev[k] == cur[k]);
                assert(prev.contains(g));
                let j = choose|j: int| 0 <= j < init.len() && init[j] == g;
                assert(gs[j] == g);
            } else {
                assert(g == gs.last());
                assert(gs[gs.len() - 1] == g);
            }
        }
        if admin {
            assert(init.push(gs.last()) =~= gs);
        }
    } else {
        assert(export_grants(gs, actor, admin) =~= gs);
    }
}

/// A non-admin's export carries exactly the grants issued to it, in stored
/// order.
pub proof fn lemma_member_export_grants_in_order(gs: Seq<FolderKeyGrantMetadata>, actor: Seq<char>)
    ensures
        export_grants(gs, actor, false) == gs.filter(|g: FolderKeyGrantMetadata| g.recipient_npub@ == actor),
    decreases gs.len(),
{
    reveal(Seq::filter);
    if gs.len() > 0 {
        lemma_member_export_grants_in_order(gs.drop_last(), actor);
    }
}

/// An admin-role invite token marks every Folder of the Brain, in Brain
/// order, at its current key version.
pub proof fn lemma_admin_token_marks_every_folder(fs: Seq<Folder>)
    ensures
        wrap_folders(fs, BrainInviteTokenRole::Admin) == fs.map_values(|f: Folder| (f.id@, f.current_key_version)),
    decreases fs.len(),
{
    if fs.len() > 0 {
        lemma_admin_token_marks_every_folder(fs.drop_last());
        assert(fs.map_values(|f: Folder| (f.id@, f.current_key_version)) =~= fs.drop_last().map_values(
            |f: Folder| (f.id@, f.current_key_version),
        ).push((fs.last().id@, fs.last().current_key_version)));
    } else {
        assert(fs.map_values(|f: Folder| (f.id@, f.current_key_version)) =~= Seq::empty());
    }
}

/// A member-role invite token marks exactly the All-Members Folders, each at
/// its current key version.
pub proof fn lemma_member_token_marks_all_members_folders(fs: Seq<Folder>, t: (Seq<char>, u32))
    ensures
        wrap_folders(fs, BrainInviteTokenRole::Member).contains(t) <==> exists|i: int|
            0 <= i < fs.len() && (#[trigger] fs[i]).access == FolderAccessMode::AllMembers && (fs[i].id@, fs[i].current_key_version)
                == t,
    decreases fs.len(),
{
    if fs.len() > 0 {
        let init = fs.drop_last();
        lemma_member_token_marks_all_members_folders(init, t);
        let prev = wrap_folders(init, BrainInviteTokenRole::Member);
        let cur = wrap_folders(fs, BrainInviteTokenRole::Member);
        if cur.contains(t) {
            let k = choose|k: int| 0 <= k < cur.len() && cur[k] == t;
            if k < prev.len() {
                assert(prev[k] == cur[k]);
                assert(prev.contains(t));
                let i = choose|i: int|
                    0 <= i < init.len() && (#[trigger] init[i]).access == FolderAccessMode::AllMembers && (
                    init[i].id@, init[i].current_key_version) == t;
                assert(fs[i] == init[i]);
            } else {
                assert(fs[fs.len() - 1] == fs.last());
            }
        }
        if exists|i: int|
            0 <= i < fs.len() && (#[trigger] fs[i]).access == FolderAccessMode::AllMembers && (fs[i].id@, fs[i].current_key_version)
                == t {
            let i = choose|i: int|
                0 <= i < fs.len() && (#[trigger] fs[i]).access == FolderAccessMode::AllMembers && (fs[i].id@, fs[i].current_key_version)
                    == t;
            if i < fs.len() - 1 {
                assert(init[i] == fs[i]);
                assert(prev.contains(t));
                let k = choose|k: int| 0 <= k < prev.len() && prev[k] == t;
                if fs.last().access == FolderAccessMode::AllMembers {
                    assert(cur[k] == prev[k]);
                } else {
                    assert(cur == prev);
                }
            } else {
                assert(cur[cur.len() - 1] == t);
            }
        }
    }
}

/// A departure marks a Folder for key re-wrap exactly when the departed
/// principal is among that same Folder's required recipients, at the
/// Folder's current key version.
pub proof fn lemma_departure_marks_folders_the_principal_could_read(
    fs: Seq<Folder>,
    required: Seq<Vec<String>>,
    departed: Seq<char>,
    t: (Seq<char>, u32),
)
    requires
        fs.len() <= required.len(),
    ensures
        pending_folders(fs, required, departed).contains(t) <==> exists|i: int|
            0 <= i < fs.len() && seq_has((#[trigger] required[i])@, departed) && (fs[i].id@, fs[i].current_key_version)
                == t,
    decreases fs.len(),
{
    if fs.len() > 0 {
        let init = fs.drop_last();
        lemma_departure_marks_folders_the_principal_could_read(init, required, departed, t);
        let prev = pending_folders(init, required, departed);
        let cur = pending_folders(fs, required, departed);
        let last = fs.len() - 1;
        if cur.contains(t) {
            let k = choose|k: int| 0 <= k < cur.len() && cur[k] == t;
            if k < prev.len() {
                assert(prev[k] == cur[k]);
                assert(prev.contains(t));
                let i = choose|i: int|
                    0 <= i < init.len() && seq_has((#[trigger] required[i])@, departed) && (
                    init[i].id@, init[i].current_key_version) == t;
                assert(fs[i] == init[i]);
            } else {
                assert(fs[last] == fs.last());
                assert(seq_has(required[last]@, departed));
            }
        }
        if exists|i: int|
            0 <= i < fs.len() && seq_has((#[trigger] required[i])@, departed) && (fs[i].id@, fs[i].current_key_version)
                == t {
            let i = choose|i: int|
                0 <= i < fs.len() && seq_has((#[trigger] required[i])@, departed) && (fs[i].id@, fs[i].current_key_version)
                    == t;
            if i < last {
                assert(init[i] == fs[i]);
                assert(prev.contains(t));
                let k = choose|k: int| 0 <= k < prev.len() && prev[k] == t;
                if seq_has(required[last]@, departed) {
                    assert(cur[k] == prev[k]);
                } else {
                    assert(cur == prev);
                }
            } else {
                assert(cur[cur.len() - 1] == t);
            }
        }
    }
}

/// An organization bootstrap is answered as an exact retry only for the
/// stored Brain itself: the same id, kind, name and Folder count, the same
/// Members with the same Folder access, the same admins and as many grants.
/// So a request whose Members differ from the stored ones is a duplicate
/// Brain id.
pub proof fn lemma_bootstrap_retry_only_for_the_same_brain(
    r: Result<bool, StoreError>,
    existing: Brain,
    stored_grants: Seq<FolderKeyGrantMetadata>,
    requested: Brain,
    grants: Seq<FolderKeyGrantMetadata>,
)
    requires
        organization_existing_outcome(r, Some((existing, stored_grants)), requested, grants),
    ensures
        r == Ok::<bool, StoreError>(true) ==> {
            &&& existing.id@ == requested.id@
            &&& existing.kind == requested.kind
            &&& existing.name@ == requested.name@
            &&& existing.folders.len() == requested.folders.len()
            &&& forall|m: (Seq<char>, Seq<Seq<char>>)|
                members_view(existing.members@).contains(m) <==> members_view(requested.members@).contains(m)
            &&& forall|u: Seq<char>| seq_has(existing.admins@, u) <==> seq_has(requested.admins@, u)
            &&& stored_grants.len() == grants.len()
        },
        existing == requested && stored_grants == grants ==> r == Ok::<bool, StoreError>(true),
        (exists|m: (Seq<char>, Seq<Seq<char>>)|
            members_view(existing.members@).contains(m) != members_view(requested.members@).contains(m)) ==> (r matches Err(
            e,
        ) && e matches StoreError::DuplicateId { field, value } && field@ == "brain_id"@ && value@ == requested.id@),
{
    if r == Ok::<bool, StoreError>(true) {
        assert(existing.folders@.map_values(|f: Folder| crate::bootstrap::folder_view(f)).len() == existing.folders.len());
        assert(stored_grants.map_values(|g: FolderKeyGrantMetadata| crate::bootstrap::grant_view(g)).len()
            == stored_grants.len());
    }
}

} // verus!
