//! Brain Membership and admin role changes.
use vstd::prelude::*;

use crate::error::{broken, is_broken, StoreError};
use crate::kinds::{BrainKind, SharedFolderConnectionStatus};
use crate::model::{
    brain_is_admin, brain_is_member, copy_texts, is_admin, is_member, seq_has, texts_contain,
    texts_distinct, Brain,
};
use crate::text::str_eq;

verus! {

/// Stored Shared Folder Connection.
#[derive(Debug, Clone, PartialEq, Eq)]
pub struct StoredSharedFolderConnection {
    pub id: String,
    pub source_brain_id: String,
    pub source_folder_id: String,
    pub destination_brain_id: String,
    pub destination_admin_npub: String,
    pub status: SharedFolderConnectionStatus,
    pub created_at: String,
    pub updated_at: String,
    /// Participating destination members with source Folder Access.
    pub member_npubs: Vec<String>,
    /// Participants whose source Folder Access was created by this Mount.
    pub managed_access_npubs: Vec<String>,
}

/// Member and admin changes are for Organization Brains only.
pub fn require_organization_brain(brain: &Brain) -> (r: Result<(), StoreError>)
    ensures
        brain.kind == BrainKind::Organization <==> r is Ok,
        r matches Err(e) ==> is_broken(e, "member/admin mutation requires an organization brain"@),
{
    if brain.kind != BrainKind::Organization {
        return Err(broken("member/admin mutation requires an organization brain"));
    }
    Ok(())
}

/// An Organization Brain Admin must already be a member.
pub fn check_add_admin(brain: &Brain, user_id: &str) -> (r: Result<(), StoreError>)
    ensures
        if brain.kind != BrainKind::Organization {
            r matches Err(e) && is_broken(e, "member/admin mutation requires an organization brain"@)
        } else if !is_member(*brain, user_id@) {
            r matches Err(e) && is_broken(e, "brain admin must already be a brain member"@)
        } else {
            r is Ok
        },
{
    require_organization_brain(brain)?;
    if !brain_is_member(brain, user_id) {
        return Err(broken("brain admin must already be a brain member"));
    }
    Ok(())
}

/// Removing an admin keeps at least one admin on an Organization Brain.
pub fn check_remove_admin(brain: &Brain, user_id: &str) -> (r: Result<(), StoreError>)
    ensures
        if brain.kind != BrainKind::Organization {
            r matches Err(e) && is_broken(e, "member/admin mutation requires an organization brain"@)
        } else if !is_admin(*brain, user_id@) {
            r matches Err(e) && is_broken(e, "brain admin does not exist"@)
        } else if brain.admins.len() == 1 {
            r matches Err(e) && is_broken(e, "organization brain must keep at least one admin"@)
        } else {
            r is Ok
        },
{
    if brain.kind != BrainKind::Organization {
        return Err(broken("member/admin mutation requires an organization brain"));
    }
    if !brain_is_admin(brain, user_id) {
        return Err(broken("brain admin does not exist"));
    }
    if brain.admins.len() == 1 {
        return Err(broken("organization brain must keep at least one admin"));
    }
    Ok(())
}

/// Admins other than the user.
pub open spec fn admins_without(admins: Seq<String>, u: Seq<char>) -> Seq<String> {
    admins.filter(other_than(u))
}

pub open spec fn other_than(u: Seq<char>) -> spec_fn(String) -> bool {
    |a: String| a@ != u
}

/// An accepted admin removal leaves the Organization Brain with an admin,
/// when admins are listed once each.
pub proof fn lemma_remove_admin_keeps_an_admin(brain: Brain, u: Seq<char>)
    requires
        texts_distinct(brain.admins@),
        brain.kind == BrainKind::Organization,
        is_admin(brain, u),
        brain.admins.len() != 1,
    ensures
        admins_without(brain.admins@, u).len() >= 1,
{
    let a = brain.admins@;
    let i = choose|i: int| 0 <= i < a.len() && (#[trigger] a[i])@ == u;
    let j = if i == 0 { 1int } else { 0int };
    assert(a[j]@ != u);
    lemma_filter_keeps(a, other_than(u), j);
}

proof fn lemma_filter_keeps(s: Seq<String>, p: spec_fn(String) -> bool, j: int)
    requires
        0 <= j < s.len(),
        p(s[j]),
    ensures
        s.filter(p).len() >= 1,
    decreases s.len(),
{
    reveal(Seq::filter);
    if j == s.len() - 1 {
        assert(s.filter(p) == s.drop_last().filter(p).push(s.last()));
    } else {
        lemma_filter_keeps(s.drop_last(), p, j);
        assert(s.drop_last()[j] == s[j]);
    }
}

/// Removing a member requires dropping its admin role and explicit access first.
pub fn check_remove_member(brain: &Brain, user_id: &str, has_explicit_access: bool) -> (r: Result<
    (),
    StoreError,
>)
    ensures
        if is_admin(*brain, user_id@) {
            r matches Err(e) && is_broken(e, "remove admin role before removing member"@)
        } else if !is_member(*brain, user_id@) {
            r matches Err(e) && is_broken(e, "brain member does not exist"@)
        } else if has_explicit_access {
            r matches Err(e) && is_broken(e, "remove explicit Folder access before removing member"@)
        } else {
            r is Ok
        },
{
    if brain_is_admin(brain, user_id) {
        return Err(broken("remove admin role before removing member"));
    }
    if !brain_is_member(brain, user_id) {
        return Err(broken("brain member does not exist"));
    }
    if has_explicit_access {
        return Err(broken("remove explicit Folder access before removing member"));
    }
    Ok(())
}

/// The conflict an approval-granted admin role reports for an existing admin.
pub open spec fn is_conflict(e: StoreError, reason: Seq<char>) -> bool {
    e matches StoreError::Conflict { reason: r, current_revision: None } && r@ == reason
}

/// Granting an admin role through an Approval: Organization Brains only, and
/// granting an existing admin is a conflict.
pub fn check_grant_admin_with_provenance(brain: &Brain, target: &str) -> (r: Result<(), StoreError>)
    ensures
        if brain.kind != BrainKind::Organization {
            r matches Err(e) && is_broken(e, "member/admin mutation requires an organization brain"@)
        } else if is_admin(*brain, target@) {
            r matches Err(e) && is_conflict(e, "target is already a brain admin"@)
        } else {
            r is Ok
        },
{
    require_organization_brain(brain)?;
    if brain_is_admin(brain, target) {
        return Err(
            StoreError::Conflict {
                reason: "target is already a brain admin".to_owned(),
                current_revision: None,
            },
        );
    }
    Ok(())
}

/// Participants whose Mount-managed source access a removal takes away:
/// every managed participant when the Mount's destination controller leaves,
/// only the leaving participant otherwise (when its access is managed).
pub open spec fn mount_removal_targets(c: StoredSharedFolderConnection, removed: Seq<char>) -> Seq<
    String,
> {
    if c.destination_admin_npub@ == removed {
        c.managed_access_npubs@
    } else if seq_has(c.managed_access_npubs@, removed) {
        seq![c.managed_access_npubs@[choose|i: int| 0 <= i < c.managed_access_npubs@.len() && (#[trigger] c.managed_access_npubs@[i])@ == removed]]
    } else {
        Seq::empty()
    }
}

/// The participants whose Mount-managed source access a removal takes away.
pub fn removal_targets(c: &StoredSharedFolderConnection, removed: &str) -> (r: Vec<String>)
    ensures
        c.destination_admin_npub@ == removed@ ==> r@ == c.managed_access_npubs@,
        c.destination_admin_npub@ != removed@ ==> (if seq_has(c.managed_access_npubs@, removed@) {
            r@.len() == 1 && r@[0]@ == removed@
        } else {
            r@.len() == 0
        }),
{
    if str_eq(c.destination_admin_npub.as_str(), removed) {
        return copy_texts(&c.managed_access_npubs);
    }
    let mut r: Vec<String> = Vec::new();
    if texts_contain(&c.managed_access_npubs, removed) {
        r.push(removed.to_owned());
    }
    r
}

} // verus!
