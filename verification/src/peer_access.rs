//! Peer Agent access to a Personal Brain, and private identity label
//! sharing.
use vstd::prelude::*;

use crate::access::{has_brain_operational_authority, has_operational_authority};
use crate::error::{broken, is_broken, StoreError};
use crate::kinds::{BrainKind, ProvenanceOriginKind};
use crate::model::{
    brain_is_member, brain_is_owner, has_any_explicit_access, is_member, is_owner, is_personal_agent, seq_has,
    stored_has_any_explicit_access, stored_is_personal_agent, texts_contain, StoredBrain,
};
use crate::text::str_eq;

verus! {

/// Whether a member's identity label is shared with the Brain's admins: an
/// explicit choice wins; otherwise members who joined through an invitation
/// share it.
pub fn identity_label_shared_with_admins(preference: Option<bool>, member_origin: Option<ProvenanceOriginKind>) -> (r:
    bool)
    ensures
        r == match preference {
            Some(shared) => shared,
            None => member_origin == Some(ProvenanceOriginKind::Invitation),
        },
{
    match preference {
        Some(shared) => shared,
        None => match member_origin {
            Some(ProvenanceOriginKind::Invitation) => true,
            _ => false,
        },
    }
}

/// The actor has current access to the Brain: a Member, a holder of
/// explicit Folder access, the owner, or the active Personal Agent.
pub open spec fn has_current_access(stored: StoredBrain, actor: Seq<char>) -> bool {
    is_member(stored.brain, actor) || has_any_explicit_access(stored, actor) || is_owner(stored.brain, actor)
        || is_personal_agent(stored, actor)
}

/// Only someone with current access to the Brain sets their label sharing.
pub fn check_label_sharing(stored: &StoredBrain, actor: &str) -> (r: Result<(), StoreError>)
    ensures
        match r {
            Ok(()) => has_current_access(*stored, actor@),
            Err(e) => !has_current_access(*stored, actor@) && is_broken(e, "label sharing requires current Brain access"@),
        },
{
    if !brain_is_member(&stored.brain, actor) && !stored_has_any_explicit_access(stored, actor) && !brain_is_owner(
        &stored.brain,
        actor,
    ) && !stored_is_personal_agent(stored, actor) {
        return Err(broken("label sharing requires current Brain access"));
    }
    Ok(())
}

/// A change of a peer Agent's Personal Brain access.
#[derive(Debug, Clone, Copy, PartialEq, Eq, Structural)]
pub enum PeerAccessOperation {
    Restrict,
    Restore,
}

/// The spelling of an operation.
pub open spec fn operation_spelling(op: PeerAccessOperation) -> Seq<char> {
    match op {
        PeerAccessOperation::Restrict => "restrict"@,
        PeerAccessOperation::Restore => "restore"@,
    }
}

/// Read an operation from its spelling.
pub fn parse_peer_access_operation(operation: &str) -> (r: Option<PeerAccessOperation>)
    ensures
        match r {
            Some(op) => operation_spelling(op) == operation@,
            None => operation@ != "restrict"@ && operation@ != "restore"@,
        },
{
    proof {
        reveal_strlit("restrict");
        reveal_strlit("restore");
    }
    if str_eq(operation, "restrict") {
        Some(PeerAccessOperation::Restrict)
    } else if str_eq(operation, "restore") {
        Some(PeerAccessOperation::Restore)
    } else {
        None
    }
}

/// Checks of a peer Agent access change: a valid operation by another
/// principal, a Personal Brain with an owner, an actor with Brain authority
/// and both Agents ready, a change that is not already in effect, and the
/// Brain's account cohort.
pub open spec fn peer_access_outcome(
    r: Result<(), StoreError>,
    stored: StoredBrain,
    ready_agents: Seq<String>,
    excluded: bool,
    has_cohort_email: bool,
    target: Seq<char>,
    operation: Seq<char>,
    actor: Seq<char>,
) -> bool {
    if !(operation == "restrict"@ || operation == "restore"@) || actor == target {
        r matches Err(e) && is_broken(e, "peer Agent Brain access operation is invalid"@)
    } else if stored.brain.kind != BrainKind::Personal || stored.brain.owner_user_id is None {
        r matches Err(e) && is_broken(e, "peer Agent Brain access requires a Personal Brain"@)
    } else if !has_operational_authority(stored, actor) || !seq_has(ready_agents, actor) || !seq_has(ready_agents, target) {
        r matches Err(e) && is_broken(e, "peer Agent Brain access requires two ready Personal Brain Agents"@)
    } else if operation == "restrict"@ && excluded {
        r matches Err(e) && is_broken(e, "peer Agent Brain access is already restricted"@)
    } else if operation == "restore"@ && !excluded {
        r matches Err(e) && is_broken(e, "peer Agent Brain access is already restoreed"@)
    } else if !has_cohort_email {
        r matches Err(e) && is_broken(e, "Personal Brain account cohort is missing"@)
    } else {
        r is Ok
    }
}

/// Check a peer Agent access change before it is planned. `ready_agents`
/// are the Brain's ready Personal Brain Agents; `excluded` tells whether the
/// target is currently excluded from the whole Brain.
pub fn check_peer_agent_access(
    stored: &StoredBrain,
    ready_agents: &Vec<String>,
    excluded: bool,
    has_cohort_email: bool,
    target_agent_npub: &str,
    operation: &str,
    actor: &str,
) -> (r: Result<(), StoreError>)
    ensures
        peer_access_outcome(r, *stored, ready_agents@, excluded, has_cohort_email, target_agent_npub@, operation@, actor@),
{
    proof {
        reveal_strlit("restrict");
        reveal_strlit("restore");
        assert("restrict"@.len() == 8);
        assert("restore"@.len() == 7);
        assert("restrict"@ != "restore"@);
    }
    let op = match parse_peer_access_operation(operation) {
        None => {
            return Err(broken("peer Agent Brain access operation is invalid"));
        },
        Some(op) => op,
    };
    if str_eq(actor, target_agent_npub) {
        return Err(broken("peer Agent Brain access operation is invalid"));
    }
    if stored.brain.kind != BrainKind::Personal || stored.brain.owner_user_id.is_none() {
        return Err(broken("peer Agent Brain access requires a Personal Brain"));
    }
    if !has_brain_operational_authority(stored, actor) || !texts_contain(ready_agents, actor) || !texts_contain(
        ready_agents,
        target_agent_npub,
    ) {
        return Err(broken("peer Agent Brain access requires two ready Personal Brain Agents"));
    }
    match op {
        PeerAccessOperation::Restrict => {
            if excluded {
                return Err(broken("peer Agent Brain access is already restricted"));
            }
        },
        PeerAccessOperation::Restore => {
            if !excluded {
                return Err(broken("peer Agent Brain access is already restoreed"));
            }
        },
    }
    if !has_cohort_email {
        return Err(broken("Personal Brain account cohort is missing"));
    }
    Ok(())
}

} // verus!
