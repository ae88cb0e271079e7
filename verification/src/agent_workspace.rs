//! Pairing a Personal Brain with a Managed Agent: the restricted Agent
//! Workspace Folder and its durable Brain Email Access Delegation.
use vstd::prelude::*;

use crate::bootstrap::{folder_view, grant_view};
use crate::controls::{count_type, pairing_record_check, validate_pairing_sync_records};
use crate::error::{broken, is_broken, StoreError};
use crate::faults::first_fault;
use crate::folder_ops::{hierarchy_fault, same_error, validate_hierarchy};
use crate::grants::{folder_grant_check, recipient_outcome, validate_folder_grants};
use crate::kinds::{BrainKind, FolderAccessMode, SyncRecordType};
use crate::model::{
    brain_is_member, find_folder, folder_access_keyed, folder_with_id, is_member, is_owner, seq_has, Folder,
    FolderKeyGrantMetadata, StoredBrain,
};
use crate::records::SyncRecordInput;
use crate::text::str_eq;

verus! {

/// A request to pair a Personal Brain with a Managed Agent.
#[derive(Debug, Clone, PartialEq, Eq)]
pub struct EnsurePersonalAgentWorkspaceInput {
    pub brain_id: String,
    pub owner_npub: String,
    pub agent_npub: String,
    pub delegation_id: String,
    /// The Agent Workspace Folder.
    pub folder: Folder,
    pub grants: Vec<FolderKeyGrantMetadata>,
    pub sync_records: Vec<SyncRecordInput>,
    pub created_at: String,
}

/// A stored Brain Email Access Delegation.
#[derive(Debug, Clone, PartialEq, Eq)]
pub struct StoredDelegation {
    pub id: String,
    pub owner_npub: String,
    pub workspace_folder_id: String,
    pub status: String,
}

/// What ensuring the workspace does.
#[derive(Debug, Clone, Copy, PartialEq, Eq, Structural)]
pub enum AgentWorkspaceStep {
    /// The same pairing exists: nothing to write.
    Duplicate,
    /// Create the membership, Folder, access, grants and delegation.
    Create,
}

/// The most recent grant to the recipient among the grants, as a map keyed
/// by recipient keeps it.
pub open spec fn last_grant_to(gs: Seq<FolderKeyGrantMetadata>, u: Seq<char>) -> Option<FolderKeyGrantMetadata>
    decreases gs.len(),
{
    if gs.len() == 0 {
        None
    } else if gs.last().recipient_npub@ == u {
        Some(gs.last())
    } else {
        last_grant_to(gs.drop_last(), u)
    }
}

/// The stored grants of the Folder's current key.
pub open spec fn current_grants(gs: Seq<FolderKeyGrantMetadata>, folder: Folder) -> Seq<FolderKeyGrantMetadata>
    decreases gs.len(),
{
    if gs.len() == 0 {
        Seq::empty()
    } else {
        let prev = current_grants(gs.drop_last(), folder);
        if gs.last().folder_id@ == folder.id@ && gs.last().key_version == folder.current_key_version {
            prev.push(gs.last())
        } else {
            prev
        }
    }
}

/// Two grant lists agree as maps keyed by recipient.
pub open spec fn same_grants_by_recipient(a: Seq<FolderKeyGrantMetadata>, b: Seq<FolderKeyGrantMetadata>) -> bool {
    forall|u: Seq<char>|
        match (#[trigger] last_grant_to(a, u), last_grant_to(b, u)) {
            (Some(x), Some(y)) => grant_view(x) == grant_view(y),
            (None, None) => true,
            _ => false,
        }
}

/// The stored pairing is exactly the requested one: the delegation, the
/// stored Folder, the Agent as sole explicit reader and a Member, the
/// current grants by recipient, and every pairing record already stored.
pub open spec fn pairing_matches(
    stored: StoredBrain,
    input: EnsurePersonalAgentWorkspaceInput,
    d: StoredDelegation,
    records_stored: bool,
) -> bool {
    &&& d.id@ == input.delegation_id@
    &&& d.owner_npub@ == input.owner_npub@
    &&& d.workspace_folder_id@ == input.folder.id@
    &&& d.status@ == "active"@
    &&& folder_with_id(stored.brain.folders@, input.folder.id@) matches Some(f) && folder_view(f) == folder_view(input.folder)
    &&& sole_explicit_reader(stored, input.folder.id@, input.agent_npub@)
    &&& is_member(stored.brain, input.agent_npub@)
    &&& same_grants_by_recipient(current_grants(stored.grants@, input.folder), input.grants@)
    &&& records_stored
}

/// The Folder's explicit access entry names exactly this one reader.
pub open spec fn sole_explicit_reader(stored: StoredBrain, folder_id: Seq<char>, u: Seq<char>) -> bool {
    match first_access_entry(stored, folder_id) {
        Some(i) => forall|x: Seq<char>| #[trigger] seq_has(stored.folder_access@[i].user_ids@, x) <==> x == u,
        None => false,
    }
}

/// Index of the Folder's explicit access entry.
pub open spec fn first_access_entry(stored: StoredBrain, folder_id: Seq<char>) -> Option<int> {
    if exists|i: int| 0 <= i < stored.folder_access.len() && (#[trigger] stored.folder_access@[i]).folder_id@ == folder_id {
        Some(choose|i: int| 0 <= i < stored.folder_access.len() && (#[trigger] stored.folder_access@[i]).folder_id@ == folder_id
            && forall|j: int| 0 <= j < i ==> (#[trigger] stored.folder_access@[j]).folder_id@ != folder_id)
    } else {
        None
    }
}

/// With access keyed by Folder, the entry the workspace check reads is the
/// Folder's only entry.
pub proof fn lemma_keyed_access_entry_is_unique(stored: StoredBrain, folder_id: Seq<char>, i: int)
    requires
        folder_access_keyed(stored),
        0 <= i < stored.folder_access.len(),
        stored.folder_access@[i].folder_id@ == folder_id,
    ensures
        first_access_entry(stored, folder_id) == Some(i),
{
    let k = first_access_entry(stored, folder_id)->0;
    assert(stored.folder_access@[k].folder_id@ == folder_id);
    if k < i {
        assert(stored.folder_access@[k].folder_id@ != stored.folder_access@[i].folder_id@);
    }
    if i < k {
        assert(stored.folder_access@[i].folder_id@ != stored.folder_access@[k].folder_id@);
    }
}

/// Outcome of ensuring a Personal Agent Workspace.
pub open spec fn workspace_outcome(
    r: Result<AgentWorkspaceStep, StoreError>,
    stored: StoredBrain,
    input: EnsurePersonalAgentWorkspaceInput,
    existing: Option<StoredDelegation>,
    records_stored: bool,
    pairing_count: u64,
    required: Seq<String>,
) -> bool {
    let brain = stored.brain;
    let records = input.sync_records@;
    if brain.kind != BrainKind::Personal || !is_owner(brain, input.owner_npub@) {
        r matches Err(e) && is_broken(e, "agent workspace pairing requires the Personal Vault owner"@)
    } else if input.agent_npub@ == input.owner_npub@ {
        r matches Err(e) && is_broken(e, "agent workspace pairing requires a distinct Agent Principal"@)
    } else if records.len() != input.grants.len() + 1 {
        r matches Err(e) && is_broken(
            e,
            "Agent Workspace pairing requires one sync record per grant and one access-change record"@,
        )
    } else if first_fault(records, pairing_record_check(input.folder.id@, input.owner_npub@)) is Some {
        r matches Err(e) && is_broken(e, first_fault(records, pairing_record_check(input.folder.id@, input.owner_npub@))->0)
    } else if count_type(records, SyncRecordType::FolderKeyGrant) != input.grants.len() || count_type(
        records,
        SyncRecordType::BrainAdminAccessChange,
    ) != 1 {
        r matches Err(e) && is_broken(e, "Agent Workspace pairing sync record set is incomplete"@)
    } else {
        match existing {
            Some(d) => if pairing_matches(stored, input, d, records_stored) {
                r == Ok::<AgentWorkspaceStep, StoreError>(AgentWorkspaceStep::Duplicate)
            } else {
                r matches Err(e) && is_broken(e, "existing Brain Email Access Delegation does not match requested pairing"@)
            },
            None => if is_member(brain, input.agent_npub@) {
                r matches Err(e) && is_broken(e, "Agent Principal is already a Personal Vault member without this delegation"@)
            } else if pairing_count >= 100 {
                r matches Err(e) && is_broken(e, "Personal Vault Agent Workspace pairing count exceeds limit 100"@)
            } else if input.folder.access != FolderAccessMode::Restricted || input.folder.parent_folder_id is Some
                || input.folder.current_key_version != 1 {
                r matches Err(e) && is_broken(e, "initial Agent Workspace must be a top-level restricted Folder at key version 1"@)
            } else if hierarchy_fault(brain, input.folder) is Some {
                r matches Err(e) && same_error(e, hierarchy_fault(brain, input.folder)->0)
            } else {
                match first_fault(input.grants@, folder_grant_check(brain, input.folder, crate::folder_ops::agent_view(stored))) {
                    Some(m) => r matches Err(e) && is_broken(e, m),
                    None => {
                        &&& recipient_outcome(
                            crate::folder_ops::unit_of(r),
                            input.grants@,
                            required,
                            "grant recipients must exactly match required recipients"@,
                        )
                        &&& (r is Ok ==> r == Ok::<AgentWorkspaceStep, StoreError>(AgentWorkspaceStep::Create))
                    },
                }
            },
        }
    }
}

fn last_grant_index(gs: &Vec<FolderKeyGrantMetadata>, u: &str) -> (r: Option<usize>)
    ensures
        match r {
            Some(i) => i < gs.len() && last_grant_to(gs@, u@) == Some(gs@[i as int]),
            None => last_grant_to(gs@, u@) is None,
        },
{
    let mut i: usize = gs.len();
    proof {
        assert(gs@.take(i as int) =~= gs@);
    }
    while i > 0
        invariant
            i <= gs.len(),
            last_grant_to(gs@, u@) == last_grant_to(gs@.take(i as int), u@),
        decreases i,
    {
        let ghost t = gs@.take(i as int);
        proof {
            assert(t.drop_last() =~= gs@.take(i - 1));
            assert(t.last() == gs@[i - 1]);
        }
        if str_eq(gs[i - 1].recipient_npub.as_str(), u) {
            return Some(i - 1);
        }
        i -= 1;
    }
    None
}

fn current_grants_of(gs: &Vec<FolderKeyGrantMetadata>, folder: &Folder) -> (r: Vec<FolderKeyGrantMetadata>)
    ensures
        r@ == current_grants(gs@, *folder),
{
    let mut r: Vec<FolderKeyGrantMetadata> = Vec::new();
    let mut i: usize = 0;
    while i < gs.len()
        invariant
            i <= gs.len(),
            r@ == current_grants(gs@.take(i as int), *folder),
        decreases gs.len() - i,
    {
        assert(gs@.take(i + 1).drop_last() =~= gs@.take(i as int));
        if str_eq(gs[i].folder_id.as_str(), folder.id.as_str()) && gs[i].key_version == folder.current_key_version {
            r.push(crate::model::copy_grant(&gs[i]));
        }
        i += 1;
    }
    assert(gs@.take(i as int) =~= gs@);
    r
}

/// Every recipient of `a` has the same last grant in `b`.
fn grants_within(a: &Vec<FolderKeyGrantMetadata>, b: &Vec<FolderKeyGrantMetadata>) -> (r: bool)
    ensures
        r == forall|k: int| 0 <= k < a.len() ==> match (last_grant_to(a@, (#[trigger] a@[k]).recipient_npub@), last_grant_to(b@, a@[k].recipient_npub@)) {
            (Some(x), Some(y)) => grant_view(x) == grant_view(y),
            _ => false,
        },
{
    let mut k: usize = 0;
    while k < a.len()
        invariant
            k <= a.len(),
            forall|j: int| 0 <= j < k ==> match (last_grant_to(a@, (#[trigger] a@[j]).recipient_npub@), last_grant_to(b@, a@[j].recipient_npub@)) {
                (Some(x), Some(y)) => grant_view(x) == grant_view(y),
                _ => false,
            },
        decreases a.len() - k,
    {
        let u = a[k].recipient_npub.as_str();
        let ia = last_grant_index(a, u);
        let ib = last_grant_index(b, u);
        match (ia, ib) {
            (Some(x), Some(y)) => {
                if !crate::bootstrap::grant_eq(&a[x], &b[y]) {
                    return false;
                }
            },
            _ => {
                return false;
            },
        }
        k += 1;
    }
    true
}

proof fn lemma_last_grant_some(gs: Seq<FolderKeyGrantMetadata>, u: Seq<char>)
    ensures
        last_grant_to(gs, u) is Some <==> exists|k: int| 0 <= k < gs.len() && (#[trigger] gs[k]).recipient_npub@ == u,
        last_grant_to(gs, u) matches Some(g) ==> g.recipient_npub@ == u,
    decreases gs.len(),
{
    if gs.len() > 0 {
        lemma_last_grant_some(gs.drop_last(), u);
        if gs.last().recipient_npub@ != u {
            if exists|k: int| 0 <= k < gs.len() && (#[trigger] gs[k]).recipient_npub@ == u {
                let k = choose|k: int| 0 <= k < gs.len() && (#[trigger] gs[k]).recipient_npub@ == u;
                assert(gs.drop_last()[k] == gs[k]);
            }
            if exists|k: int| 0 <= k < gs.drop_last().len() && (#[trigger] gs.drop_last()[k]).recipient_npub@ == u {
                let k = choose|k: int| 0 <= k < gs.drop_last().len() && (#[trigger] gs.drop_last()[k]).recipient_npub@ == u;
                assert(gs[k] == gs.drop_last()[k]);
            }
        } else {
            assert(gs[gs.len() - 1] == gs.last());
        }
    }
}

/// The two grant lists agree as maps keyed by recipient.
fn same_grants_by_recipient_exec(a: &Vec<FolderKeyGrantMetadata>, b: &Vec<FolderKeyGrantMetadata>) -> (r: bool)
    ensures
        r == same_grants_by_recipient(a@, b@),
{
    let ab = grants_within(a, b);
    let ba = grants_within(b, a);
    proof {
        if ab && ba {
            assert forall|u: Seq<char>| match (#[trigger] last_grant_to(a@, u), last_grant_to(b@, u)) {
                (Some(x), Some(y)) => grant_view(x) == grant_view(y),
                (None, None) => true,
                _ => false,
            } by {
                lemma_last_grant_some(a@, u);
                lemma_last_grant_some(b@, u);
                if last_grant_to(a@, u) is Some {
                    let k = choose|k: int| 0 <= k < a@.len() && (#[trigger] a@[k]).recipient_npub@ == u;
                    assert(match (last_grant_to(a@, a@[k].recipient_npub@), last_grant_to(b@, a@[k].recipient_npub@)) {
                        (Some(x), Some(y)) => grant_view(x) == grant_view(y),
                        _ => false,
                    });
                } else if last_grant_to(b@, u) is Some {
                    let k = choose|k: int| 0 <= k < b@.len() && (#[trigger] b@[k]).recipient_npub@ == u;
                    assert(match (last_grant_to(b@, b@[k].recipient_npub@), last_grant_to(a@, b@[k].recipient_npub@)) {
                        (Some(x), Some(y)) => grant_view(x) == grant_view(y),
                        _ => false,
                    });
                }
            }
        } else if !ab {
            let k = choose|k: int| 0 <= k < a@.len() && !match (last_grant_to(a@, (#[trigger] a@[k]).recipient_npub@), last_grant_to(b@, a@[k].recipient_npub@)) {
                (Some(x), Some(y)) => grant_view(x) == grant_view(y),
                _ => false,
            };
            let u = a@[k].recipient_npub@;
            lemma_last_grant_some(a@, u);
            assert(!match (last_grant_to(a@, u), last_grant_to(b@, u)) {
                (Some(x), Some(y)) => grant_view(x) == grant_view(y),
                (None, None) => true,
                _ => false,
            });
        } else {
            let k = choose|k: int| 0 <= k < b@.len() && !match (last_grant_to(b@, (#[trigger] b@[k]).recipient_npub@), last_grant_to(a@, b@[k].recipient_npub@)) {
                (Some(x), Some(y)) => grant_view(x) == grant_view(y),
                _ => false,
            };
            let u = b@[k].recipient_npub@;
            lemma_last_grant_some(b@, u);
            assert(!match (last_grant_to(a@, u), last_grant_to(b@, u)) {
                (Some(x), Some(y)) => grant_view(x) == grant_view(y),
                (None, None) => true,
                _ => false,
            });
        }
    }
    ab && ba
}

#[verifier::loop_isolation(false)]
fn sole_explicit_reader_exec(stored: &StoredBrain, folder_id: &str, u: &str) -> (r: bool)
    ensures
        r == sole_explicit_reader(*stored, folder_id@, u@),
{
    let es = &stored.folder_access;
    let mut i: usize = 0;
    while i < es.len() && !str_eq(es[i].folder_id.as_str(), folder_id)
        invariant
            i <= es.len(),
            es == stored.folder_access,
            forall|j: int| 0 <= j < i ==> (#[trigger] es@[j]).folder_id@ != folder_id@,
        decreases es.len() - i,
    {
        i += 1;
    }
    if i == es.len() {
        return false;
    }
    proof {
        assert(es@[i as int].folder_id@ == folder_id@);
        let k = first_access_entry(*stored, folder_id@)->0;
        if k < i {
            assert(es@[k].folder_id@ != folder_id@);
        }
        if (i as int) < k {
            assert(es@[i as int].folder_id@ == folder_id@);
        }
        assert(first_access_entry(*stored, folder_id@) == Some(i as int));
    }
    let users = &es[i].user_ids;
    if !crate::model::texts_contain(users, u) {
        return false;
    }
    let mut j: usize = 0;
    while j < users.len()
        invariant
            j <= users.len(),
            forall|k: int| 0 <= k < j ==> (#[trigger] users@[k])@ == u@,
        decreases users.len() - j,
    {
        if !str_eq(users[j].as_str(), u) {
            proof {
                assert(seq_has(users@, users@[j as int]@));
            }
            return false;
        }
        j += 1;
    }
    true
}

fn pairing_matches_exec(
    stored: &StoredBrain,
    input: &EnsurePersonalAgentWorkspaceInput,
    d: &StoredDelegation,
    records_stored: bool,
) -> (r: bool)
    ensures
        r == pairing_matches(*stored, *input, *d, records_stored),
{
    proof {
        reveal_strlit("active");
    }
    if !str_eq(d.id.as_str(), input.delegation_id.as_str()) || !str_eq(d.owner_npub.as_str(), input.owner_npub.as_str())
        || !str_eq(d.workspace_folder_id.as_str(), input.folder.id.as_str()) || !str_eq(d.status.as_str(), "active") {
        return false;
    }
    let same_folder = match find_folder(&stored.brain.folders, input.folder.id.as_str()) {
        Some(i) => crate::bootstrap::folder_eq(&stored.brain.folders[i], &input.folder),
        None => false,
    };
    if !same_folder {
        return false;
    }
    if !sole_explicit_reader_exec(stored, input.folder.id.as_str(), input.agent_npub.as_str()) {
        return false;
    }
    if !brain_is_member(&stored.brain, input.agent_npub.as_str()) {
        return false;
    }
    let current = current_grants_of(&stored.grants, &input.folder);
    same_grants_by_recipient_exec(&current, &input.grants) && records_stored
}

/// Decide how to ensure a Personal Agent Workspace: only the Personal
/// Brain's owner pairs a distinct Agent Principal, with one owner-authored
/// grant control per grant and one access-change control for the Folder.
/// An existing delegation must be exactly the requested pairing (a repeat).
/// A new pairing needs an Agent that is not yet a Member, fewer than the
/// per-Brain pairing limit, a new top-level restricted Folder at key version
/// 1, and grants exactly for `required`, the Folder's required recipients.
pub fn ensure_personal_agent_workspace(
    stored: &StoredBrain,
    input: &EnsurePersonalAgentWorkspaceInput,
    existing: Option<&StoredDelegation>,
    records_stored: bool,
    pairing_count: u64,
    required: &Vec<String>,
) -> (r: Result<AgentWorkspaceStep, StoreError>)
    requires
        folder_access_keyed(*stored),
    ensures
        workspace_outcome(
            r,
            *stored,
            *input,
            match existing {
                Some(d) => Some(*d),
                None => None,
            },
            records_stored,
            pairing_count,
            required@,
        ),
{
    let brain = &stored.brain;
    let owns = match &brain.owner_user_id {
        Some(o) => str_eq(o.as_str(), input.owner_npub.as_str()),
        None => false,
    };
    if brain.kind != BrainKind::Personal || !owns {
        return Err(broken("agent workspace pairing requires the Personal Vault owner"));
    }
    if str_eq(input.agent_npub.as_str(), input.owner_npub.as_str()) {
        return Err(broken("agent workspace pairing requires a distinct Agent Principal"));
    }
    if let Err(e) = validate_pairing_sync_records(
        &input.sync_records,
        input.grants.len(),
        input.folder.id.as_str(),
        input.owner_npub.as_str(),
    ) {
        return Err(e);
    }
    match existing {
        Some(d) => {
            if pairing_matches_exec(stored, input, d, records_stored) {
                Ok(AgentWorkspaceStep::Duplicate)
            } else {
                Err(broken("existing Brain Email Access Delegation does not match requested pairing"))
            }
        },
        None => {
            if brain_is_member(brain, input.agent_npub.as_str()) {
                return Err(broken("Agent Principal is already a Personal Vault member without this delegation"));
            }
            if pairing_count >= 100 {
                return Err(broken("Personal Vault Agent Workspace pairing count exceeds limit 100"));
            }
            if input.folder.access != FolderAccessMode::Restricted || input.folder.parent_folder_id.is_some()
                || input.folder.current_key_version != 1 {
                return Err(broken("initial Agent Workspace must be a top-level restricted Folder at key version 1"));
            }
            if let Err(e) = validate_hierarchy(brain, &input.folder) {
                return Err(e);
            }
            let agent = match &stored.personal_agent {
                Some(a) => Some(a.agent_npub.as_str()),
                None => None,
            };
            match validate_folder_grants(brain, &input.folder, required, &input.grants, agent) {
                Err(e) => Err(e),
                Ok(()) => Ok(AgentWorkspaceStep::Create),
            }
        },
    }
}

} // verus!
