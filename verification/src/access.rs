//! Who may see a Brain and its Folders, who governs it, and the
//! actor-filtered Encrypted Brain Export.
use vstd::prelude::*;

use crate::error::StoreError;
use crate::kinds::{unknown_spelling, BrainKind, FolderAccessMode, VisibleBrainRole};
use crate::model::{
    brain_is_admin, brain_is_member, brain_is_owner, find_folder, folder_with_id,
    has_any_explicit_access, has_explicit_access, is_admin, is_member, is_owner, is_personal_agent,
    seq_has, stored_has_any_explicit_access, stored_has_explicit_access, stored_is_personal_agent,
    texts_contain, texts_distinct, Brain, StoredBrain,
};

verus! {

/// Brain membership view used by Brain switchers.
pub open spec fn brain_visible(brain: Brain, u: Seq<char>) -> bool {
    match brain.kind {
        BrainKind::Personal => is_owner(brain, u) || is_member(brain, u),
        BrainKind::Organization => is_member(brain, u),
    }
}

/// Operational (destructive, administrative) authority over a Brain.
pub open spec fn has_operational_authority(stored: StoredBrain, u: Seq<char>) -> bool {
    match stored.brain.kind {
        BrainKind::Personal => is_owner(stored.brain, u) || is_personal_agent(stored, u),
        BrainKind::Organization => is_admin(stored.brain, u),
    }
}

/// Native access a Folder's mode gives, before explicit access.
pub open spec fn native_access(brain: Brain, access: FolderAccessMode, u: Seq<char>) -> bool {
    match access {
        FolderAccessMode::Owner => is_owner(brain, u),
        FolderAccessMode::AdminOnly => is_owner(brain, u) || is_admin(brain, u),
        FolderAccessMode::AllMembers => is_owner(brain, u) || is_admin(brain, u) || is_member(
            brain,
            u,
        ),
        FolderAccessMode::Restricted => is_owner(brain, u) || is_admin(brain, u),
    }
}

/// The actor can read the Folder's current encrypted objects.
pub open spec fn folder_visible(stored: StoredBrain, folder_id: Seq<char>, u: Seq<char>) -> bool {
    match folder_with_id(stored.brain.folders@, folder_id) {
        None => false,
        Some(folder) => is_personal_agent(stored, u) || has_explicit_access(stored, folder_id, u)
            || native_access(stored.brain, folder.access, u),
    }
}

/// A Folder-limited identity without Brain Membership.
pub open spec fn is_guest(stored: StoredBrain, u: Seq<char>) -> bool {
    has_any_explicit_access(stored, u) && !is_member(stored.brain, u) && !is_owner(stored.brain, u)
        && !is_personal_agent(stored, u)
}

pub fn brain_visible_to_actor(brain: &Brain, actor: &str) -> (r: bool)
    ensures
        r == brain_visible(*brain, actor@),
{
    match brain.kind {
        BrainKind::Personal => brain_is_owner(brain, actor) || brain_is_member(brain, actor),
        BrainKind::Organization => brain_is_member(brain, actor),
    }
}

pub fn has_brain_operational_authority(stored: &StoredBrain, actor: &str) -> (r: bool)
    ensures
        r == has_operational_authority(*stored, actor@),
{
    match stored.brain.kind {
        BrainKind::Personal => brain_is_owner(&stored.brain, actor) || stored_is_personal_agent(
            stored,
            actor,
        ),
        BrainKind::Organization => brain_is_admin(&stored.brain, actor),
    }
}

pub fn native_folder_access(brain: &Brain, access: FolderAccessMode, actor: &str) -> (r: bool)
    ensures
        r == native_access(*brain, access, actor@),
{
    let is_owner = brain_is_owner(brain, actor);
    let is_admin = brain_is_admin(brain, actor);
    match access {
        FolderAccessMode::Owner => is_owner,
        FolderAccessMode::AdminOnly => is_owner || is_admin,
        FolderAccessMode::AllMembers => is_owner || is_admin || brain_is_member(brain, actor),
        FolderAccessMode::Restricted => is_owner || is_admin,
    }
}

pub fn folder_visible_to_actor(stored: &StoredBrain, folder_id: &str, actor: &str) -> (r: bool)
    ensures
        r == folder_visible(*stored, folder_id@, actor@),
{
    match find_folder(&stored.brain.folders, folder_id) {
        None => false,
        Some(i) => {
            stored_is_personal_agent(stored, actor) || stored_has_explicit_access(
                stored,
                folder_id,
                actor,
            ) || native_folder_access(&stored.brain, stored.brain.folders[i].access, actor)
        },
    }
}

pub fn actor_is_guest(stored: &StoredBrain, actor: &str) -> (r: bool)
    ensures
        r == is_guest(*stored, actor@),
{
    stored_has_any_explicit_access(stored, actor) && !brain_is_member(&stored.brain, actor)
        && !brain_is_owner(&stored.brain, actor) && !stored_is_personal_agent(stored, actor)
}

/// Active Folder-limited identities that do not hold Brain Membership, each
/// once.
pub fn guest_user_ids(stored: &StoredBrain) -> (r: Vec<String>)
    ensures
        texts_distinct(r@),
        forall|u: Seq<char>| seq_has(r@, u) <==> is_guest(*stored, u),
{
    let mut r: Vec<String> = Vec::new();
    let mut i: usize = 0;
    while i < stored.folder_access.len()
        invariant
            i <= stored.folder_access.len(),
            texts_distinct(r@),
            forall|u: Seq<char>| seq_has(r@, u) ==> is_guest(*stored, u),
            forall|k: int, m: int|
                0 <= k < i && 0 <= m < stored.folder_access@[k].user_ids@.len() && is_guest(
                    *stored,
                    (#[trigger] stored.folder_access@[k].user_ids@[m])@,
                ) ==> seq_has(r@, stored.folder_access@[k].user_ids@[m]@),
        decreases stored.folder_access.len() - i,
    {
        let users = &stored.folder_access[i].user_ids;
        let mut j: usize = 0;
        while j < users.len()
            invariant
                i < stored.folder_access.len(),
                users == stored.folder_access@[i as int].user_ids,
                j <= users.len(),
                texts_distinct(r@),
                forall|u: Seq<char>| seq_has(r@, u) ==> is_guest(*stored, u),
                forall|k: int, m: int|
                    0 <= k < i && 0 <= m < stored.folder_access@[k].user_ids@.len() && is_guest(
                        *stored,
                        (#[trigger] stored.folder_access@[k].user_ids@[m])@,
                    ) ==> seq_has(r@, stored.folder_access@[k].user_ids@[m]@),
                forall|m: int|
                    0 <= m < j && is_guest(*stored, (#[trigger] users@[m])@) ==> seq_has(
                        r@,
                        users@[m]@,
                    ),
            decreases users.len() - j,
        {
            let u = &users[j];
            let ghost old_r = r@;
            let is_g = actor_is_guest(stored, u.as_str());
            let present = texts_contain(&r, u.as_str());
            if is_g && !present {
                r.push(u.clone());
                proof {
                    assert(r@[r@.len() - 1] == *u);
                    assert forall|x: Seq<char>| seq_has(old_r, x) implies seq_has(r@, x) by {
                        let k = choose|k: int| 0 <= k < old_r.len() && (#[trigger] old_r[k])@ == x;
                        assert(r@[k] == old_r[k]);
                    }
                    assert forall|x: Seq<char>| seq_has(r@, x) implies is_guest(*stored, x) by {
                        let k = choose|k: int| 0 <= k < r@.len() && (#[trigger] r@[k])@ == x;
                        if k < old_r.len() {
                            assert(old_r[k] == r@[k]);
                        }
                    }
                }
            }
            j += 1;
        }
        i += 1;
    }
    proof {
        assert forall|u: Seq<char>| is_guest(*stored, u) implies seq_has(r@, u) by {
            let k = choose|k: int|
                0 <= k < stored.folder_access.len() && seq_has(
                    (#[trigger] stored.folder_access@[k]).user_ids@,
                    u,
                );
            let m = choose|m: int|
                0 <= m < stored.folder_access@[k].user_ids@.len()
                    && (#[trigger] stored.folder_access@[k].user_ids@[m])@ == u;
            assert(is_guest(*stored, stored.folder_access@[k].user_ids@[m]@));
        }
    }
    r
}

/// One Brain in an actor's Brain switcher.
#[derive(Debug, Clone, PartialEq, Eq)]
pub struct VisibleBrain {
    pub id: String,
    pub kind: BrainKind,
    pub name: String,
    /// Actor's relationship to this Brain.
    pub role: VisibleBrainRole,
    /// Pending invitation code when the actor has not accepted yet.
    pub invite_code: Option<String>,
}

/// Decode one Brain switcher row: its kind and the actor's role must be
/// known spellings, the kind checked first.
pub fn visible_brain_from_row(id: &str, kind: &str, name: &str, role: &str, invite_code: Option<&str>) -> (r:
    Result<VisibleBrain, StoreError>)
    ensures
        match BrainKind::from_spelling(kind@) {
            None => r matches Err(e) && unknown_spelling(e, "unknown brain kind: "@, kind@),
            Some(k) => match VisibleBrainRole::from_spelling(role@) {
                None => r matches Err(e) && unknown_spelling(e, "unknown visible brain role: "@, role@),
                Some(v) => r matches Ok(b) && b.id@ == id@ && b.kind == k && b.name@ == name@ && b.role == v
                    && match invite_code {
                    Some(c) => b.invite_code matches Some(bc) && bc@ == c@,
                    None => b.invite_code is None,
                },
            },
        },
{
    let kind = match BrainKind::try_from(kind) {
        Err(e) => {
            return Err(e);
        },
        Ok(k) => k,
    };
    let role = match VisibleBrainRole::try_from(role) {
        Err(e) => {
            return Err(e);
        },
        Ok(v) => v,
    };
    Ok(
        VisibleBrain {
            id: id.to_owned(),
            kind,
            name: name.to_owned(),
            role,
            invite_code: match invite_code {
                Some(c) => Some(c.to_owned()),
                None => None,
            },
        },
    )
}

} // verus!
