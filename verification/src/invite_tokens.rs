//! Capability Invite Tokens: who may create and revoke them, and what
//! redeeming one grants.
use vstd::prelude::*;

use crate::access::{has_brain_operational_authority, has_operational_authority};
use crate::error::{broken, is_broken, StoreError};
use crate::kinds::{BrainInviteTokenRole, BrainKind, FolderAccessMode};
use crate::links::{
    bounded_expiry_outcome, expired, is_token_hash, is_unavailable, timestamp_expired,
    validate_bounded_offer_expiry, validate_invite_token_hash,
};
use crate::model::{Brain, Folder, StoredBrain};
use crate::provenance::MemberProvenance;
use crate::text::str_eq;

verus! {

/// One stored capability Invite Token. The store only ever sees the hash of
/// the raw token.
#[derive(Debug, Clone, PartialEq, Eq)]
pub struct StoredBrainInviteToken {
    pub token_hash: String,
    pub brain_id: String,
    pub role: BrainInviteTokenRole,
    pub inviter_npub: String,
    pub created_at: String,
    pub expires_at: String,
    pub redeemed_by_npub: Option<String>,
    pub redeemed_at: Option<String>,
    pub revoked_at: Option<String>,
    /// True when redeeming returned the current state for an existing member
    /// or a repeated redemption.
    pub duplicate_redeem: bool,
}

/// Checks on creating an Invite Token: Brain operational authority, an
/// Organization Brain for an admin-role token, a well-formed token hash and
/// an expiry between one hour and thirty days after creation.
pub open spec fn create_token_outcome(
    r: Result<(), StoreError>,
    stored: StoredBrain,
    token_hash: Seq<char>,
    role: BrainInviteTokenRole,
    inviter: Seq<char>,
    expires_at: Seq<char>,
    created_at: Seq<char>,
) -> bool {
    if !has_operational_authority(stored, inviter) {
        r matches Err(e) && is_broken(e, "brain invite tokens require brain operational authority"@)
    } else if role == BrainInviteTokenRole::Admin && stored.brain.kind != BrainKind::Organization {
        r matches Err(e) && is_broken(e, "admin invite tokens require an organization brain"@)
    } else if !is_token_hash(token_hash) {
        r matches Err(e) && is_broken(e, "brain invite token hash must be 64 lowercase hex characters"@)
    } else {
        bounded_expiry_outcome(r, expires_at, created_at)
    }
}

/// Check the creation of an Invite Token before it is stored.
pub fn check_create_invite_token(
    stored: &StoredBrain,
    token_hash: &str,
    role: BrainInviteTokenRole,
    inviter_npub: &str,
    expires_at: &str,
    created_at: &str,
) -> (r: Result<(), StoreError>)
    ensures
        create_token_outcome(r, *stored, token_hash@, role, inviter_npub@, expires_at@, created_at@),
{
    if !has_brain_operational_authority(stored, inviter_npub) {
        return Err(broken("brain invite tokens require brain operational authority"));
    }
    if role == BrainInviteTokenRole::Admin && stored.brain.kind != BrainKind::Organization {
        return Err(broken("admin invite tokens require an organization brain"));
    }
    if let Err(e) = validate_invite_token_hash(token_hash) {
        return Err(e);
    }
    validate_bounded_offer_expiry(expires_at, created_at)
}

/// Only a pending token of the Brain can be revoked, and only with Brain
/// operational authority.
pub fn check_revoke_invite_token(stored: &StoredBrain, token: &StoredBrainInviteToken, actor_npub: &str) -> (r: Result<
    (),
    StoreError,
>)
    ensures
        if !has_operational_authority(*stored, actor_npub@) {
            r matches Err(e) && is_broken(e, "brain invite token revocation requires brain operational authority"@)
        } else if token.brain_id@ != stored.brain.id@ || token.redeemed_by_npub is Some || token.revoked_at is Some {
            r matches Err(e) && is_unavailable(e, "brain invite token"@)
        } else {
            r is Ok
        },
{
    if !has_brain_operational_authority(stored, actor_npub) {
        return Err(broken("brain invite token revocation requires brain operational authority"));
    }
    if !str_eq(token.brain_id.as_str(), stored.brain.id.as_str()) || token.redeemed_by_npub.is_some()
        || token.revoked_at.is_some() {
        return Err(StoreError::UnavailableLink { kind: "brain invite token" });
    }
    Ok(())
}

/// What redeeming a token writes.
#[derive(Debug, Clone, PartialEq, Eq)]
pub enum InviteTokenRedemption {
    /// The same npub redeemed the token before: return the current state.
    Repeat,
    /// Grant membership with this provenance (and admin standing for an
    /// admin-role token), and mark these Folders for key delivery at these
    /// key versions.
    Redeem { member_provenance: MemberProvenance, pending_wrap_folders: Vec<(String, u32)> },
}

/// The Folders a redemption marks for key delivery: every all-members Folder
/// for a member-role token, every Folder for an admin-role token, in Brain
/// order with their current key versions.
pub open spec fn wrap_folders(fs: Seq<Folder>, role: BrainInviteTokenRole) -> Seq<(Seq<char>, u32)>
    decreases fs.len(),
{
    if fs.len() == 0 {
        Seq::empty()
    } else {
        let prev = wrap_folders(fs.drop_last(), role);
        if role == BrainInviteTokenRole::Admin || fs.last().access == FolderAccessMode::AllMembers {
            prev.push((fs.last().id@, fs.last().current_key_version))
        } else {
            prev
        }
    }
}

/// The membership origin of a redemption (`invite-token:{hash}`).
pub open spec fn token_origin_ref(token_hash: Seq<char>) -> Seq<char> {
    "invite-token:"@ + token_hash
}

/// Decide a redemption: a revoked token, a token redeemed by another npub
/// and an expired token are unavailable; the npub that redeemed it gets the
/// current state again.
pub fn plan_invite_token_redemption(token: &StoredBrainInviteToken, redeemer: &str, now: &str, brain: &Brain) -> (r:
    Result<InviteTokenRedemption, StoreError>)
    ensures
        if token.revoked_at is Some {
            r matches Err(e) && is_unavailable(e, "brain invite token"@)
        } else if token.redeemed_by_npub is Some {
            if token.redeemed_by_npub->0@ == redeemer@ {
                r == Ok::<InviteTokenRedemption, StoreError>(InviteTokenRedemption::Repeat)
            } else {
                r matches Err(e) && is_unavailable(e, "brain invite token"@)
            }
        } else if expired(token.expires_at@, now@) {
            r matches Err(e) && is_unavailable(e, "brain invite token"@)
        } else {
            match r {
                Ok(InviteTokenRedemption::Redeem { member_provenance, pending_wrap_folders }) => {
                    &&& member_provenance.delegated_by_npub matches Some(d) && d@ == token.inviter_npub@
                    &&& member_provenance.origin_kind == crate::kinds::ProvenanceOriginKind::Invitation
                    &&& member_provenance.origin_ref matches Some(o) && o@ == token_origin_ref(token.token_hash@)
                    &&& pending_wrap_folders@.map_values(|p: (String, u32)| (p.0@, p.1)) == wrap_folders(
                        brain.folders@,
                        token.role,
                    )
                },
                _ => false,
            }
        },
{
    if token.revoked_at.is_some() {
        return Err(StoreError::UnavailableLink { kind: "brain invite token" });
    }
    if let Some(redeemed_by) = &token.redeemed_by_npub {
        if str_eq(redeemed_by.as_str(), redeemer) {
            return Ok(InviteTokenRedemption::Repeat);
        }
        return Err(StoreError::UnavailableLink { kind: "brain invite token" });
    }
    if timestamp_expired(token.expires_at.as_str(), now) {
        return Err(StoreError::UnavailableLink { kind: "brain invite token" });
    }
    let mut origin = "invite-token:".to_owned();
    origin.append(token.token_hash.as_str());
    let member_provenance = MemberProvenance::invitation(token.inviter_npub.clone(), origin);
    let folders = &brain.folders;
    let mut wraps: Vec<(String, u32)> = Vec::new();
    let mut i: usize = 0;
    while i < folders.len()
        invariant
            i <= folders.len(),
            folders == brain.folders,
            wraps@.map_values(|p: (String, u32)| (p.0@, p.1)) == wrap_folders(folders@.take(i as int), token.role),
        decreases folders.len() - i,
    {
        assert(folders@.take(i + 1).drop_last() =~= folders@.take(i as int));
        let ghost prev = wraps@;
        if token.role == BrainInviteTokenRole::Admin || folders[i].access == FolderAccessMode::AllMembers {
            wraps.push((folders[i].id.clone(), folders[i].current_key_version));
            assert(wraps@.map_values(|p: (String, u32)| (p.0@, p.1)) =~= prev.map_values(|p: (String, u32)| (p.0@, p.1)).push(
                (folders@[i as int].id@, folders@[i as int].current_key_version),
            ));
        }
        i += 1;
    }
    assert(folders@.take(i as int) =~= folders@);
    Ok(InviteTokenRedemption::Redeem { member_provenance, pending_wrap_folders: wraps })
}

} // verus!
