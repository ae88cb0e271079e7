//! Account cohorts: a human and its account agents, granted a Folder
//! together, and the permanent departure of one of its agents.
use vstd::prelude::*;

use crate::access::{
    folder_visible, folder_visible_to_actor, has_brain_operational_authority,
    has_operational_authority,
};
use crate::bootstrap::{BootstrapAccountCohort, CohortParticipant, is_account_agent, is_human};
use crate::controls::{check_pairs, first_grant_control_fault};
use crate::error::{broken, is_broken, is_missing_folder, StoreError};
use crate::export::CurrentEncryptedObject;
use crate::faults::{first_fault, lemma_first_fault_end, lemma_first_fault_start, lemma_first_fault_step};
use crate::grants::{grant_metadata_fault, grants_recipient, validate_grant_metadata};
use crate::kinds::{FolderAccessMode, SyncRecordType};
use crate::links::{field_reason, validate_link_id};
use crate::model::{find_folder, folder_with_id, seq_has, Folder, FolderKeyGrantMetadata, StoredBrain};
use crate::records::SyncRecordInput;
use crate::folder_ops::{
    agent_view, live_objects, live_objects_of, rotated, rotation_outcome, rotation_valid, unit_of,
};
use crate::grants::{
    grant_triple, grant_triples_distinct, grants_triple, recipients_match, validate_folder_grants,
};
use crate::records::FolderObjectRevisionSyncRecord;
use crate::rotation::rotation_records_outcome;
use crate::model::{
    brain_is_admin, brain_is_owner, has_explicit_access, is_owner, texts_contain, texts_distinct,
};
use crate::member_removal::{
    exactly_once, folder_ids_of, ids_exactly_once, prepared_folder_ids, PreparedFolderRotation,
};
use crate::model::{
    copy_folder, copy_opt, copy_texts, is_admin, is_member, is_personal_agent, Brain, BrainMember,
};
use crate::rotation::validate_rotation_records;
use crate::text::{
    ascii_lowered, blank_or_control, eq_ignore_ascii_case, same_ignoring_ascii_case, str_eq,
    to_ascii_lowercase, trim_text, trimmed,
};

verus! {

/// What granting a cohort access to a Folder does.
#[derive(Debug, Clone, Copy, PartialEq, Eq, Structural)]
pub enum CohortFolderAccessStep {
    /// The operation was applied before; nothing changes.
    AlreadyApplied,
    /// Grant every participant access with its grant.
    Grant,
}

/// The cohort's participants are each named once, exactly one is the human,
/// and every other one is an account agent.
pub open spec fn cohort_participants_clear(ps: Seq<CohortParticipant>) -> bool {
    &&& forall|i: int, j: int| 0 <= i < j < ps.len() ==> (#[trigger] ps[i]).npub@ != (#[trigger] ps[j]).npub@
    &&& exists|h: int| crate::bootstrap::sole_human_at(ps, h)
    &&& forall|i: int| 0 <= i < ps.len() ==> is_human(#[trigger] ps[i]) || is_account_agent(ps[i])
}

/// Some participant has the npub.
pub open spec fn has_participant(ps: Seq<CohortParticipant>, u: Seq<char>) -> bool {
    exists|i: int| 0 <= i < ps.len() && (#[trigger] ps[i]).npub@ == u
}

/// Why a cohort grant does not fit the operation, if it does not.
pub open spec fn cohort_grant_fault(g: FolderKeyGrantMetadata, folder: Folder, actor: Seq<char>) -> Option<Seq<char>> {
    if grant_metadata_fault(g) is Some {
        grant_metadata_fault(g)
    } else if g.folder_id@ != folder.id@ || g.key_version != folder.current_key_version || g.issuer_npub@ != actor {
        Some("mailbox Folder grant does not match the current Folder plan"@)
    } else {
        None
    }
}

pub open spec fn cohort_grant_check(folder: Folder, actor: Seq<char>) -> spec_fn(FolderKeyGrantMetadata) -> Option<Seq<char>> {
    |g: FolderKeyGrantMetadata| cohort_grant_fault(g, folder, actor)
}

/// Outcome of granting a cohort access to a restricted Folder.
pub open spec fn cohort_folder_access_outcome(
    r: Result<CohortFolderAccessStep, StoreError>,
    stored: StoredBrain,
    folder_id: Seq<char>,
    operation_id: Seq<char>,
    cohort: BootstrapAccountCohort,
    actor: Seq<char>,
    grants: Seq<FolderKeyGrantMetadata>,
    records: Seq<SyncRecordInput>,
    already_applied: bool,
) -> bool {
    let ps = cohort.participants@;
    if blank_or_control(operation_id) {
        r matches Err(e) && is_broken(e, field_reason("cohort_folder_access_operation_id"@, " must be non-empty and printable"@))
    } else if !has_operational_authority(stored, actor) {
        r matches Err(e) && is_broken(e, "mailbox Folder access requires Brain operational authority"@)
    } else {
        match folder_with_id(stored.brain.folders@, folder_id) {
            None => r matches Err(e) && is_missing_folder(e, folder_id),
            Some(folder) => if folder.access != FolderAccessMode::Restricted {
                r matches Err(e) && is_broken(e, "mailbox Folder access applies only to restricted Folders"@)
            } else if already_applied {
                r == Ok::<CohortFolderAccessStep, StoreError>(CohortFolderAccessStep::AlreadyApplied)
            } else if !exists|i: int| 0 <= i < ps.len() && is_human(#[trigger] ps[i]) {
                r matches Err(e) && is_broken(e, "account cohort requires one human participant"@)
            } else if !cohort_participants_clear(ps) {
                r matches Err(e) && is_broken(e, "account cohort participants are ambiguous"@)
            } else if grants.len() != ps.len() || !(forall|u: Seq<char>| grants_recipient(grants, u) <==> has_participant(ps, u)) {
                r matches Err(e) && is_broken(e, "mailbox Folder grants must exactly match the fixed cohort"@)
            } else if first_fault(grants, cohort_grant_check(folder, actor)) is Some {
                r matches Err(e) && is_broken(e, first_fault(grants, cohort_grant_check(folder, actor))->0)
            } else if records.len() != grants.len() + 1 {
                r matches Err(e) && is_broken(
                    e,
                    "mailbox Folder access requires one grant record per participant and one access-change record"@,
                )
            } else if first_grant_control_fault(grants, records.take(grants.len() as int)) is Some {
                r matches Err(e) && is_broken(e, first_grant_control_fault(grants, records.take(grants.len() as int))->0)
            } else {
                match records[grants.len() as int] {
                    SyncRecordInput::Control(c) => if c.record_type != SyncRecordType::BrainAdminAccessChange || !(
                    c.folder_id matches Some(f) && f@ == folder_id) || c.actor_npub@ != actor {
                        r matches Err(e) && is_broken(e, "mailbox Folder access-change record does not match the operation"@)
                    } else if cohort.roster_revision > i64::MAX {
                        r matches Err(e) && is_broken(e, "cohort roster revision exceeds SQLite range"@)
                    } else {
                        r == Ok::<CohortFolderAccessStep, StoreError>(CohortFolderAccessStep::Grant)
                    },
                    _ => r matches Err(e) && is_broken(e, "mailbox Folder access-change record must be a control record"@),
                }
            },
        }
    }
}

fn participants_clear(ps: &Vec<CohortParticipant>) -> (r: bool)
    ensures
        r == cohort_participants_clear(ps@),
{
    let mut j: usize = 0;
    while j < ps.len()
        invariant
            j <= ps.len(),
            forall|a: int, b: int| 0 <= a < b < j ==> (#[trigger] ps@[a]).npub@ != (#[trigger] ps@[b]).npub@,
        decreases ps.len() - j,
    {
        let mut i: usize = 0;
        while i < j
            invariant
                i <= j < ps.len(),
                forall|a: int, b: int| 0 <= a < b < j ==> (#[trigger] ps@[a]).npub@ != (#[trigger] ps@[b]).npub@,
                forall|a: int| 0 <= a < i ==> (#[trigger] ps@[a]).npub@ != ps@[j as int].npub@,
            decreases j - i,
        {
            if str_eq(ps[i].npub.as_str(), ps[j].npub.as_str()) {
                return false;
            }
            i += 1;
        }
        j += 1;
    }
    let mut k: usize = 0;
    while k < ps.len()
        invariant
            k <= ps.len(),
            forall|a: int| 0 <= a < k ==> is_human(#[trigger] ps@[a]) || is_account_agent(ps@[a]),
        decreases ps.len() - k,
    {
        proof {
            reveal_strlit("human");
            reveal_strlit("account_agent");
        }
        if !str_eq(ps[k].relationship.as_str(), "human") && !str_eq(ps[k].relationship.as_str(), "account_agent") {
            return false;
        }
        k += 1;
    }
    match sole_human_index(ps) {
        Some(_) => true,
        None => false,
    }
}

fn sole_human_index(ps: &Vec<CohortParticipant>) -> (r: Option<usize>)
    ensures
        match r {
            Some(h) => crate::bootstrap::sole_human_at(ps@, h as int),
            None => !exists|h: int| crate::bootstrap::sole_human_at(ps@, h),
        },
{
    let mut found: Option<usize> = None;
    let mut i: usize = 0;
    while i < ps.len()
        invariant
            i <= ps.len(),
            match found {
                Some(h) => h < i && is_human(ps@[h as int]) && forall|j: int| 0 <= j < i && j != h ==> !is_human(#[trigger] ps@[j]),
                None => forall|j: int| 0 <= j < i ==> !is_human(#[trigger] ps@[j]),
            },
        decreases ps.len() - i,
    {
        proof {
            reveal_strlit("human");
        }
        if str_eq(ps[i].relationship.as_str(), "human") {
            match found {
                Some(h) => {
                    proof {
                        assert forall|k: int| !crate::bootstrap::sole_human_at(ps@, k) by {
                            if crate::bootstrap::sole_human_at(ps@, k) {
                                if k != h {
                                    assert(!is_human(ps@[h as int]));
                                } else {
                                    assert(!is_human(ps@[i as int]));
                                }
                            }
                        }
                    }
                    return None;
                },
                None => {
                    found = Some(i);
                },
            }
        }
        i += 1;
    }
    match found {
        Some(h) => Some(h),
        None => {
            proof {
                assert forall|k: int| !crate::bootstrap::sole_human_at(ps@, k) by {
                    if crate::bootstrap::sole_human_at(ps@, k) {
                        assert(is_human(ps@[k]));
                    }
                }
            }
            None
        },
    }
}

fn has_participant_exec(ps: &Vec<CohortParticipant>, u: &str) -> (r: bool)
    ensures
        r == has_participant(ps@, u@),
{
    let mut i: usize = 0;
    while i < ps.len()
        invariant
            i <= ps.len(),
            forall|k: int| 0 <= k < i ==> (#[trigger] ps@[k]).npub@ != u@,
        decreases ps.len() - i,
    {
        if str_eq(ps[i].npub.as_str(), u) {
            return true;
        }
        i += 1;
    }
    false
}

fn grants_to(grants: &Vec<FolderKeyGrantMetadata>, u: &str) -> (r: bool)
    ensures
        r == grants_recipient(grants@, u@),
{
    let mut i: usize = 0;
    while i < grants.len()
        invariant
            i <= grants.len(),
            forall|k: int| 0 <= k < i ==> (#[trigger] grants@[k]).recipient_npub@ != u@,
        decreases grants.len() - i,
    {
        if str_eq(grants[i].recipient_npub.as_str(), u) {
            return true;
        }
        i += 1;
    }
    false
}

/// The grants go to exactly the participants.
fn grants_match_participants(grants: &Vec<FolderKeyGrantMetadata>, ps: &Vec<CohortParticipant>) -> (r: bool)
    ensures
        r == (forall|u: Seq<char>| grants_recipient(grants@, u) <==> has_participant(ps@, u)),
{
    let mut i: usize = 0;
    while i < grants.len()
        invariant
            i <= grants.len(),
            forall|k: int| 0 <= k < i ==> has_participant(ps@, (#[trigger] grants@[k]).recipient_npub@),
        decreases grants.len() - i,
    {
        if !has_participant_exec(ps, grants[i].recipient_npub.as_str()) {
            proof {
                assert(grants_recipient(grants@, grants@[i as int].recipient_npub@));
            }
            return false;
        }
        i += 1;
    }
    let mut j: usize = 0;
    while j < ps.len()
        invariant
            j <= ps.len(),
            forall|k: int| 0 <= k < grants.len() ==> has_participant(ps@, (#[trigger] grants@[k]).recipient_npub@),
            forall|k: int| 0 <= k < j ==> grants_recipient(grants@, (#[trigger] ps@[k]).npub@),
        decreases ps.len() - j,
    {
        if !grants_to(grants, ps[j].npub.as_str()) {
            proof {
                assert(has_participant(ps@, ps@[j as int].npub@));
            }
            return false;
        }
        j += 1;
    }
    proof {
        assert forall|u: Seq<char>| grants_recipient(grants@, u) <==> has_participant(ps@, u) by {
            if grants_recipient(grants@, u) {
                let k = choose|k: int| 0 <= k < grants@.len() && (#[trigger] grants@[k]).recipient_npub@ == u;
                assert(has_participant(ps@, grants@[k].recipient_npub@));
            }
            if has_participant(ps@, u) {
                let k = choose|k: int| 0 <= k < ps@.len() && (#[trigger] ps@[k]).npub@ == u;
                assert(grants_recipient(grants@, ps@[k].npub@));
            }
        }
    }
    true
}

/// Check a grant of a restricted Folder to a whole account cohort before
/// anything is written: the operation id, Brain operational authority, a
/// restricted Folder, a clear cohort, one current-key grant by the actor per
/// participant, and one grant control per grant followed by one
/// access-change control by the actor for the Folder.
#[verifier::loop_isolation(false)]
pub fn check_cohort_folder_access_grant(
    stored: &StoredBrain,
    folder_id: &str,
    operation_id: &str,
    cohort: &BootstrapAccountCohort,
    actor: &str,
    grants: &Vec<FolderKeyGrantMetadata>,
    control_records: &Vec<SyncRecordInput>,
    already_applied: bool,
) -> (r: Result<CohortFolderAccessStep, StoreError>)
    ensures
        cohort_folder_access_outcome(
            r,
            *stored,
            folder_id@,
            operation_id@,
            *cohort,
            actor@,
            grants@,
            control_records@,
            already_applied,
        ),
{
    if let Err(e) = validate_link_id("cohort_folder_access_operation_id", operation_id) {
        return Err(e);
    }
    if !has_brain_operational_authority(stored, actor) {
        return Err(broken("mailbox Folder access requires Brain operational authority"));
    }
    let idx = match find_folder(&stored.brain.folders, folder_id) {
        None => {
            return Err(StoreError::MissingFolder { folder_id: folder_id.to_owned() });
        },
        Some(i) => i,
    };
    let folder = &stored.brain.folders[idx];
    proof {
        crate::model::lemma_folder_with_id_none(stored.brain.folders@, folder_id@);
    }
    if folder.access != FolderAccessMode::Restricted {
        return Err(broken("mailbox Folder access applies only to restricted Folders"));
    }
    if already_applied {
        return Ok(CohortFolderAccessStep::AlreadyApplied);
    }
    let ps = &cohort.participants;
    let mut any_human = false;
    let mut i: usize = 0;
    while i < ps.len()
        invariant
            i <= ps.len(),
            any_human ==> exists|k: int| 0 <= k < ps.len() && is_human(#[trigger] ps@[k]),
            !any_human ==> forall|k: int| 0 <= k < i ==> !is_human(#[trigger] ps@[k]),
        decreases ps.len() - i,
    {
        proof {
            reveal_strlit("human");
        }
        if str_eq(ps[i].relationship.as_str(), "human") {
            any_human = true;
        }
        i += 1;
    }
    if !any_human {
        return Err(broken("account cohort requires one human participant"));
    }
    if !participants_clear(ps) {
        return Err(broken("account cohort participants are ambiguous"));
    }
    if grants.len() != ps.len() || !grants_match_participants(grants, ps) {
        return Err(broken("mailbox Folder grants must exactly match the fixed cohort"));
    }
    let ghost check = cohort_grant_check(*folder, actor@);
    proof {
        lemma_first_fault_start(grants@, check);
    }
    let mut g: usize = 0;
    while g < grants.len()
        invariant
            g <= grants.len(),
            check == cohort_grant_check(*folder, actor@),
            first_fault(grants@, check) == first_fault(grants@.skip(g as int), check),
        decreases grants.len() - g,
    {
        proof {
            lemma_first_fault_step(grants@, check, g as int);
        }
        let grant = &grants[g];
        if let Err(e) = validate_grant_metadata(grant) {
            return Err(e);
        }
        if !str_eq(grant.folder_id.as_str(), folder_id) || grant.key_version != folder.current_key_version || !str_eq(
            grant.issuer_npub.as_str(),
            actor,
        ) {
            return Err(broken("mailbox Folder grant does not match the current Folder plan"));
        }
        g += 1;
    }
    proof {
        lemma_first_fault_end(grants@, check);
    }
    if control_records.len() == 0 || control_records.len() - 1 != grants.len() {
        return Err(broken("mailbox Folder access requires one grant record per participant and one access-change record"));
    }
    if let Err(e) = check_pairs(grants, control_records, grants.len()) {
        return Err(e);
    }
    match &control_records[grants.len()] {
        SyncRecordInput::Control(c) => {
            let names_folder = match &c.folder_id {
                Some(f) => str_eq(f.as_str(), folder_id),
                None => false,
            };
            if c.record_type != SyncRecordType::BrainAdminAccessChange || !names_folder || !str_eq(
                c.actor_npub.as_str(),
                actor,
            ) {
                return Err(broken("mailbox Folder access-change record does not match the operation"));
            }
        },
        _ => {
            return Err(broken("mailbox Folder access-change record must be a control record"));
        },
    }
    if cohort.roster_revision > 9223372036854775807u64 {
        return Err(broken("cohort roster revision exceeds SQLite range"));
    }
    Ok(CohortFolderAccessStep::Grant)
}

/// One participant of a stored account cohort.
#[derive(Debug, Clone, PartialEq, Eq)]
pub struct CohortParticipantState {
    pub npub: String,
    pub relationship: String,
    pub nip05: String,
    pub status: String,
}

/// One stored account cohort of a Brain.
#[derive(Debug, Clone, PartialEq, Eq)]
pub struct AccountCohortState {
    pub status: String,
    pub account_id: String,
    pub human_email: String,
    pub participants: Vec<CohortParticipantState>,
}

/// The departing agent is an active account agent of an active cohort of
/// the account, under the human's email and the agent's own address (both
/// trimmed and compared ignoring ASCII case).
pub open spec fn departing_agent_in_cohort(
    cohorts: Seq<AccountCohortState>,
    account_id: Seq<char>,
    human_email: Seq<char>,
    agent_nip05: Seq<char>,
    agent: Seq<char>,
) -> bool {
    exists|i: int|
        0 <= i < cohorts.len() && #[trigger] cohort_names_agent(cohorts[i], account_id, human_email, agent_nip05, agent)
}

pub open spec fn cohort_names_agent(
    c: AccountCohortState,
    account_id: Seq<char>,
    human_email: Seq<char>,
    agent_nip05: Seq<char>,
    agent: Seq<char>,
) -> bool {
    &&& c.status@ == "active"@
    &&& c.account_id@ == account_id
    &&& same_ignoring_ascii_case(trimmed(c.human_email@), ascii_lowered(trimmed(human_email)))
    &&& exists|j: int| 0 <= j < c.participants.len() && #[trigger] participant_is_agent(c.participants@[j], agent_nip05, agent)
}

pub open spec fn participant_is_agent(p: CohortParticipantState, agent_nip05: Seq<char>, agent: Seq<char>) -> bool {
    &&& p.npub@ == agent
    &&& p.relationship@ == "account_agent"@
    &&& same_ignoring_ascii_case(trimmed(p.nip05@), ascii_lowered(trimmed(agent_nip05)))
    &&& p.status@ == "active"@
}

#[verifier::loop_isolation(false)]
fn cohort_names_agent_exec(
    c: &AccountCohortState,
    account_id: &str,
    normalized_human: &str,
    normalized_agent: &str,
    agent: &str,
    Ghost(human_email): Ghost<Seq<char>>,
    Ghost(agent_nip05): Ghost<Seq<char>>,
) -> (r: bool)
    requires
        normalized_human@ == ascii_lowered(trimmed(human_email)),
        normalized_agent@ == ascii_lowered(trimmed(agent_nip05)),
    ensures
        r == cohort_names_agent(*c, account_id@, human_email, agent_nip05, agent@),
{
    proof {
        reveal_strlit("active");
        reveal_strlit("account_agent");
    }
    if !str_eq(c.status.as_str(), "active") || !str_eq(c.account_id.as_str(), account_id) || !eq_ignore_ascii_case(
        trim_text(c.human_email.as_str()),
        normalized_human,
    ) {
        return false;
    }
    let mut j: usize = 0;
    while j < c.participants.len()
        invariant
            j <= c.participants.len(),
            normalized_agent@ == ascii_lowered(trimmed(agent_nip05)),
            forall|k: int| 0 <= k < j ==> !#[trigger] participant_is_agent(c.participants@[k], agent_nip05, agent@),
        decreases c.participants.len() - j,
    {
        let p = &c.participants[j];
        if str_eq(p.npub.as_str(), agent) && str_eq(p.relationship.as_str(), "account_agent") && eq_ignore_ascii_case(
            trim_text(p.nip05.as_str()),
            normalized_agent,
        ) && str_eq(p.status.as_str(), "active") {
            assert(participant_is_agent(c.participants@[j as int], agent_nip05, agent@));
            return true;
        }
        j += 1;
    }
    false
}

/// The ids of the Folders the principal can read, in Brain order.
pub open spec fn visible_folder_ids(stored: StoredBrain, fs: Seq<Folder>, u: Seq<char>) -> Seq<String>
    decreases fs.len(),
{
    if fs.len() == 0 {
        Seq::empty()
    } else {
        let prev = visible_folder_ids(stored, fs.drop_last(), u);
        if folder_visible(stored, fs.last().id@, u) {
            prev.push(fs.last().id)
        } else {
            prev
        }
    }
}

fn visible_folder_ids_of(stored: &StoredBrain, u: &str) -> (r: Vec<String>)
    ensures
        r@ == visible_folder_ids(*stored, stored.brain.folders@, u@),
{
    let folders = &stored.brain.folders;
    let mut r: Vec<String> = Vec::new();
    let mut i: usize = 0;
    while i < folders.len()
        invariant
            i <= folders.len(),
            folders == stored.brain.folders,
            r@ == visible_folder_ids(*stored, folders@.take(i as int), u@),
        decreases folders.len() - i,
    {
        assert(folders@.take(i + 1).drop_last() =~= folders@.take(i as int));
        if folder_visible_to_actor(stored, folders[i].id.as_str(), u) {
            r.push(folders[i].id.clone());
        }
        i += 1;
    }
    assert(folders@.take(i as int) =~= folders@);
    r
}

/// Some Member has the id.
pub open spec fn has_user(ms: Seq<BrainMember>, x: Seq<char>) -> bool {
    exists|k: int| 0 <= k < ms.len() && (#[trigger] ms[k]).user_id@ == x
}

/// The Brain as it stands once the principal is gone: the same Brain
/// without the principal among its admins and members.
pub open spec fn is_brain_without(post: Brain, brain: Brain, u: Seq<char>) -> bool {
    &&& post.id@ == brain.id@
    &&& post.kind == brain.kind
    &&& crate::bootstrap::opt_text(post.owner_user_id) == crate::bootstrap::opt_text(brain.owner_user_id)
    &&& forall|x: Seq<char>| #[trigger] is_admin(post, x) <==> (is_admin(brain, x) && x != u)
    &&& forall|x: Seq<char>| #[trigger] is_member(post, x) <==> (is_member(brain, x) && x != u)
}

/// The Brain without the principal among its admins and members.
pub fn brain_without(brain: &Brain, u: &str) -> (post: Brain)
    ensures
        is_brain_without(post, *brain, u@),
{
    let mut admins: Vec<String> = Vec::new();
    let mut i: usize = 0;
    while i < brain.admins.len()
        invariant
            i <= brain.admins.len(),
            forall|x: Seq<char>| #[trigger] seq_has(admins@, x) <==> (seq_has(brain.admins@.take(i as int), x) && x != u@),
        decreases brain.admins.len() - i,
    {
        let ghost prev = admins@;
        if !str_eq(brain.admins[i].as_str(), u) {
            admins.push(brain.admins[i].clone());
        }
        proof {
            crate::deletion::lemma_seq_has_take_step(brain.admins@, i as int);
            assert forall|x: Seq<char>| #[trigger] seq_has(admins@, x) <==> (seq_has(brain.admins@.take(i + 1), x) && x != u@) by {
                if seq_has(admins@, x) {
                    let k = choose|k: int| 0 <= k < admins@.len() && (#[trigger] admins@[k])@ == x;
                    if k < prev.len() {
                        assert(prev[k] == admins@[k]);
                    }
                }
                if seq_has(prev, x) {
                    let k = choose|k: int| 0 <= k < prev.len() && (#[trigger] prev[k])@ == x;
                    assert(admins@[k] == prev[k]);
                }
                if x == brain.admins@[i as int]@ && x != u@ {
                    assert(admins@[prev.len() as int] == brain.admins@[i as int]);
                }
            }
        }
        i += 1;
    }
    assert(brain.admins@.take(i as int) =~= brain.admins@);
    let mut members: Vec<BrainMember> = Vec::new();
    let mut j: usize = 0;
    while j < brain.members.len()
        invariant
            j <= brain.members.len(),
            forall|x: Seq<char>| #[trigger] has_user(members@, x) <==> (has_user(brain.members@.take(j as int), x) && x != u@),
        decreases brain.members.len() - j,
    {
        let ghost prev = members@;
        let m = &brain.members[j];
        let keep = !str_eq(m.user_id.as_str(), u);
        if keep {
            members.push(BrainMember { user_id: m.user_id.clone(), folder_access: copy_texts(&m.folder_access) });
        }
        proof {
            if keep {
                assert(members@ == prev.push(members@[prev.len() as int]));
                assert(members@[prev.len() as int].user_id@ == brain.members@[j as int].user_id@);
            } else {
                assert(members@ == prev);
            }
        }
        proof {
            let t0 = brain.members@.take(j as int);
            let t1 = brain.members@.take(j + 1);
            assert forall|x: Seq<char>| #[trigger] has_user(members@, x) <==> (has_user(t1, x) && x != u@) by {
                if has_user(members@, x) {
                    let k = choose|k: int| 0 <= k < members@.len() && (#[trigger] members@[k]).user_id@ == x;
                    if k < prev.len() {
                        assert(prev[k] == members@[k]);
                        assert(has_user(prev, x));
                        let q = choose|q: int| 0 <= q < t0.len() && (#[trigger] t0[q]).user_id@ == x;
                        assert(t1[q] == t0[q]);
                    } else {
                        assert(keep);
                        assert(t1[j as int] == brain.members@[j as int]);
                        assert(has_user(t1, x));
                    }
                }
                if has_user(t1, x) && x != u@ {
                    let q = choose|q: int| 0 <= q < t1.len() && (#[trigger] t1[q]).user_id@ == x;
                    if q < j {
                        assert(t0[q] == t1[q]);
                        assert(has_user(t0, x));
                        assert(has_user(prev, x));
                        let k = choose|k: int| 0 <= k < prev.len() && (#[trigger] prev[k]).user_id@ == x;
                        assert(members@[k] == prev[k]);
                    } else {
                        assert(q == j);
                        assert(t1[q] == brain.members@[j as int]);
                        assert(keep);
                        assert(members@[prev.len() as int].user_id@ == x);
                    }
                }
            }
        }
        j += 1;
    }
    assert(brain.members@.take(j as int) =~= brain.members@);
    let post = Brain {
        id: brain.id.clone(),
        kind: brain.kind,
        name: brain.name.clone(),
        owner_user_id: copy_opt(&brain.owner_user_id),
        admins,
        members,
        folders: Vec::new(),
    };
    proof {
        assert forall|x: Seq<char>| #[trigger] is_member(post, x) <==> (is_member(*brain, x) && x != u@) by {
            if is_member(post, x) {
                let k = choose|k: int| 0 <= k < post.members.len() && (#[trigger] post.members[k]).user_id@ == x;
                assert(post.members@[k].user_id@ == x);
                assert(has_user(post.members@, x));
                assert(has_user(brain.members@.take(j as int), x));
                assert(has_user(brain.members@, x));
                let q = choose|q: int| 0 <= q < brain.members@.len() && (#[trigger] brain.members@[q]).user_id@ == x;
                assert(brain.members[q].user_id@ == x);
            }
            if is_member(*brain, x) && x != u@ {
                let q = choose|q: int| 0 <= q < brain.members.len() && (#[trigger] brain.members[q]).user_id@ == x;
                assert(brain.members@[q].user_id@ == x);
                assert(has_user(brain.members@, x));
                assert(has_user(brain.members@.take(j as int), x));
                assert(has_user(post.members@, x));
                let k = choose|k: int| 0 <= k < post.members@.len() && (#[trigger] post.members@[k]).user_id@ == x;
                assert(post.members[k].user_id@ == x);
            }
        }
    }
    post
}

/// The Brain record with the departed principal gone: its admins and
/// members, and its Personal Agent when that was the principal.
pub open spec fn post_stored(stored: StoredBrain, post: Brain, departed: Seq<char>) -> StoredBrain {
    StoredBrain {
        brain: post,
        personal_agent: if is_personal_agent(stored, departed) {
            None
        } else {
            stored.personal_agent
        },
        ..stored
    }
}

/// The rotation of one readable Folder for a departure is acceptable: the
/// next key version, grants exactly for the Folder's remaining recipients
/// issued by remaining authority, and every live object re-encrypted once.
pub open spec fn departure_rotation_ok(
    stored: StoredBrain,
    post: Brain,
    departed: Seq<char>,
    p: PreparedFolderRotation,
    objects: Seq<CurrentEncryptedObject>,
) -> bool {
    let rot = p.rotation;
    match folder_with_id(stored.brain.folders@, rot.folder_id@) {
        None => false,
        Some(folder) => rot.new_key_version == folder.current_key_version + 1 && rotation_valid(
            post_stored(stored, post, departed),
            post,
            rotated(folder, rot.new_key_version),
            p.required_after@,
            rot.grants@,
            live_objects(objects, rot.folder_id@),
            rot.reencrypted_records@,
        ),
    }
}

/// The error a failing departure rotation reports.
pub open spec fn departure_rotation_outcome(
    r: Result<(), StoreError>,
    stored: StoredBrain,
    post: Brain,
    departed: Seq<char>,
    p: PreparedFolderRotation,
    objects: Seq<CurrentEncryptedObject>,
) -> bool {
    let rot = p.rotation;
    match folder_with_id(stored.brain.folders@, rot.folder_id@) {
        None => r matches Err(e) && is_missing_folder(e, rot.folder_id@),
        Some(folder) => if rot.new_key_version != folder.current_key_version + 1 {
            r matches Err(e) && is_broken(e, "permanent Agent departure rotation must use the next key version"@)
        } else {
            rotation_outcome(
                r,
                post_stored(stored, post, departed),
                post,
                rotated(folder, rot.new_key_version),
                p.required_after@,
                rot.grants@,
                live_objects(objects, rot.folder_id@),
                rot.reencrypted_records@,
            )
        },
    }
}

/// Total number of grants across the rotations.
pub open spec fn total_grants(ps: Seq<PreparedFolderRotation>) -> nat
    decreases ps.len(),
{
    if ps.len() == 0 {
        0
    } else {
        total_grants(ps.drop_last()) + ps.last().rotation.grants@.len()
    }
}

/// What applying a permanent Agent departure does.
#[derive(Debug, Clone, Copy, PartialEq, Eq, Structural)]
pub enum PermanentAgentDepartureStep {
    /// The fact was applied to this Brain before.
    AlreadyApplied,
    /// Rotate every readable Folder and remove the agent.
    Apply,
}

/// Outcome of checking a permanent Agent departure against the Brain after
/// the agent is gone (`post`).
pub open spec fn permanent_departure_outcome(
    r: Result<PermanentAgentDepartureStep, StoreError>,
    stored: StoredBrain,
    post: Brain,
    cohorts: Seq<AccountCohortState>,
    fact_id: Seq<char>,
    account_id: Seq<char>,
    human_email: Seq<char>,
    agent_nip05: Seq<char>,
    agent: Seq<char>,
    departure_kind: Seq<char>,
    actor: Seq<char>,
    already_applied: bool,
    rotations: Seq<PreparedFolderRotation>,
    control_record_count: int,
    objects: Seq<CurrentEncryptedObject>,
) -> bool {
    if blank_or_control(fact_id) {
        r matches Err(e) && is_broken(e, field_reason("permanent_agent_departure_fact_id"@, " must be non-empty and printable"@))
    } else if !(departure_kind == "unlinked"@ || departure_kind == "retired"@ || departure_kind == "deleted"@) {
        r matches Err(e) && is_broken(e, "only permanent unlink, retirement, or deletion is a departure fact"@)
    } else if already_applied {
        r == Ok::<PermanentAgentDepartureStep, StoreError>(PermanentAgentDepartureStep::AlreadyApplied)
    } else if !has_operational_authority(stored, actor) {
        r matches Err(e) && is_broken(e, "permanent Agent departure requires Brain operational authority"@)
    } else if !departing_agent_in_cohort(cohorts, account_id, human_email, agent_nip05, agent) {
        r matches Err(e) && is_broken(e, "permanent departure fact does not match an active Brain account cohort"@)
    } else if !exactly_once(visible_folder_ids(stored, stored.brain.folders@, agent), prepared_folder_ids(rotations)) {
        r matches Err(e) && is_broken(e, "permanent Agent departure requires one rotation for every readable Folder"@)
    } else if exists|i: int| 0 <= i < rotations.len() && !departure_rotation_ok(stored, post, agent, #[trigger] rotations[i], objects) {
        r is Err && exists|i: int|
            0 <= i < rotations.len() && !departure_rotation_ok(stored, post, agent, #[trigger] rotations[i], objects)
                && (forall|k: int| 0 <= k < i ==> departure_rotation_ok(stored, post, agent, #[trigger] rotations[k], objects))
                && departure_rotation_outcome(unit_of(r), stored, post, agent, rotations[i], objects)
    } else if control_record_count != total_grants(rotations) + 1 {
        r matches Err(e) && is_broken(
            e,
            "permanent Agent departure requires all grant controls and one access-change control"@,
        )
    } else {
        r == Ok::<PermanentAgentDepartureStep, StoreError>(PermanentAgentDepartureStep::Apply)
    }
}

fn check_departure_rotation(
    stored: &StoredBrain,
    post: &Brain,
    post_agent: Option<&str>,
    p: &PreparedFolderRotation,
    objects: &Vec<CurrentEncryptedObject>,
    Ghost(departed): Ghost<Seq<char>>,
) -> (r: Result<(), StoreError>)
    requires
        crate::grants::opt_view(post_agent) == agent_view(post_stored(*stored, *post, departed)),
    ensures
        departure_rotation_outcome(r, *stored, *post, departed, *p, objects@),
        r is Ok <==> departure_rotation_ok(*stored, *post, departed, *p, objects@),
{
    let rot = &p.rotation;
    let idx = match find_folder(&stored.brain.folders, rot.folder_id.as_str()) {
        None => {
            return Err(StoreError::MissingFolder { folder_id: rot.folder_id.clone() });
        },
        Some(i) => i,
    };
    let folder = &stored.brain.folders[idx];
    if folder.current_key_version == u32::MAX || rot.new_key_version != folder.current_key_version + 1 {
        return Err(broken("permanent Agent departure rotation must use the next key version"));
    }
    let mut rotated_folder = copy_folder(folder);
    rotated_folder.current_key_version = rot.new_key_version;
    if let Err(e) = validate_folder_grants(post, &rotated_folder, &p.required_after, &rot.grants, post_agent) {
        return Err(e);
    }
    let live = live_objects_of(objects, rot.folder_id.as_str());
    validate_rotation_records(&live, &rot.reencrypted_records)
}

/// Check a permanent Agent departure before anything is written: the fact
/// id, a permanent departure kind, a fact not applied before, Brain
/// operational authority, a matching active account cohort, exactly one
/// rotation per Folder the agent can read, each to the next key version
/// with exact grants for the Brain without the agent and re-encrypted
/// records, and one grant control per grant plus one access-change control.
pub fn check_permanent_agent_departure(
    stored: &StoredBrain,
    cohorts: &Vec<AccountCohortState>,
    fact_id: &str,
    account_id: &str,
    human_email: &str,
    agent_nip05: &str,
    agent_npub: &str,
    departure_kind: &str,
    actor: &str,
    already_applied: bool,
    rotations: &Vec<PreparedFolderRotation>,
    control_record_count: usize,
    current_objects: &Vec<CurrentEncryptedObject>,
) -> (r: Result<PermanentAgentDepartureStep, StoreError>)
    ensures
        exists|post: Brain|
            is_brain_without(post, stored.brain, agent_npub@) && permanent_departure_outcome(
                r,
                *stored,
                post,
                cohorts@,
                fact_id@,
                account_id@,
                human_email@,
                agent_nip05@,
                agent_npub@,
                departure_kind@,
                actor@,
                already_applied,
                rotations@,
                control_record_count as int,
                current_objects@,
            ),
{
    let post = brain_without(&stored.brain, agent_npub);
    let r = departure_step(
        stored,
        &post,
        cohorts,
        fact_id,
        account_id,
        human_email,
        agent_nip05,
        agent_npub,
        departure_kind,
        actor,
        already_applied,
        rotations,
        control_record_count,
        current_objects,
    );
    r
}

#[verifier::loop_isolation(false)]
fn departure_step(
    stored: &StoredBrain,
    post: &Brain,
    cohorts: &Vec<AccountCohortState>,
    fact_id: &str,
    account_id: &str,
    human_email: &str,
    agent_nip05: &str,
    agent_npub: &str,
    departure_kind: &str,
    actor: &str,
    already_applied: bool,
    rotations: &Vec<PreparedFolderRotation>,
    control_record_count: usize,
    current_objects: &Vec<CurrentEncryptedObject>,
) -> (r: Result<PermanentAgentDepartureStep, StoreError>)
    ensures
        permanent_departure_outcome(
            r,
            *stored,
            *post,
            cohorts@,
            fact_id@,
            account_id@,
            human_email@,
            agent_nip05@,
            agent_npub@,
            departure_kind@,
            actor@,
            already_applied,
            rotations@,
            control_record_count as int,
            current_objects@,
        ),
{
    if let Err(e) = validate_link_id("permanent_agent_departure_fact_id", fact_id) {
        return Err(e);
    }
    proof {
        reveal_strlit("unlinked");
        reveal_strlit("retired");
        reveal_strlit("deleted");
    }
    if !str_eq(departure_kind, "unlinked") && !str_eq(departure_kind, "retired") && !str_eq(departure_kind, "deleted") {
        return Err(broken("only permanent unlink, retirement, or deletion is a departure fact"));
    }
    if already_applied {
        return Ok(PermanentAgentDepartureStep::AlreadyApplied);
    }
    if !has_brain_operational_authority(stored, actor) {
        return Err(broken("permanent Agent departure requires Brain operational authority"));
    }
    let normalized_human = to_ascii_lowercase(trim_text(human_email));
    let normalized_agent = to_ascii_lowercase(trim_text(agent_nip05));
    let mut matched = false;
    let mut i: usize = 0;
    while i < cohorts.len()
        invariant
            i <= cohorts.len(),
            matched ==> departing_agent_in_cohort(cohorts@, account_id@, human_email@, agent_nip05@, agent_npub@),
            !matched ==> forall|k: int| 0 <= k < i ==> !#[trigger] cohort_names_agent(cohorts@[k], account_id@, human_email@, agent_nip05@, agent_npub@),
        decreases cohorts.len() - i,
    {
        if cohort_names_agent_exec(
            &cohorts[i],
            account_id,
            normalized_human.as_str(),
            normalized_agent.as_str(),
            agent_npub,
            Ghost(human_email@),
            Ghost(agent_nip05@),
        ) {
            matched = true;
        }
        i += 1;
    }
    if !matched {
        return Err(broken("permanent departure fact does not match an active Brain account cohort"));
    }
    let expected = visible_folder_ids_of(stored, agent_npub);
    let supplied = folder_ids_of(rotations);
    if !ids_exactly_once(&expected, &supplied) {
        return Err(broken("permanent Agent departure requires one rotation for every readable Folder"));
    }
    let post_agent: Option<&str> = match &stored.personal_agent {
        Some(a) => if str_eq(a.agent_npub.as_str(), agent_npub) {
            None
        } else {
            Some(a.agent_npub.as_str())
        },
        None => None,
    };
    let mut total: usize = 0;
    let mut k: usize = 0;
    while k < rotations.len()
        invariant
            k <= rotations.len(),
            forall|j: int| 0 <= j < k ==> departure_rotation_ok(*stored, *post, agent_npub@, #[trigger] rotations@[j], current_objects@),
            total == (if total_grants(rotations@.take(k as int)) > usize::MAX {
                usize::MAX as nat
            } else {
                total_grants(rotations@.take(k as int))
            }),
        decreases rotations.len() - k,
    {
        let checked = check_departure_rotation(stored, post, post_agent, &rotations[k], current_objects, Ghost(agent_npub@));
        if let Err(e) = checked {
            return Err(e);
        }
        assert(rotations@.take(k + 1).drop_last() =~= rotations@.take(k as int));
        assert(rotations@.take(k + 1).last() == rotations@[k as int]);
        total = total.saturating_add(rotations[k].rotation.grants.len());
        k += 1;
    }
    assert(rotations@.take(k as int) =~= rotations@);
    if total == usize::MAX || control_record_count != total + 1 {
        return Err(broken("permanent Agent departure requires all grant controls and one access-change control"));
    }
    Ok(PermanentAgentDepartureStep::Apply)
}

/// One participant of a cohort as the store records it.
#[derive(Debug, Clone, PartialEq, Eq)]
pub struct StoredCohortParticipant {
    pub npub: String,
    pub relationship: String,
    pub nip05: String,
    pub name: String,
}

/// A reviewed plan to take a mailbox's cohort-derived access to a Folder
/// away with one Folder Key rotation. Each list names each npub once.
#[derive(Debug, Clone, PartialEq, Eq)]
pub struct AccountCohortFolderRemovalPlan {
    pub cohort_ids: Vec<String>,
    /// The (source kind, source id) access sources the cohorts created.
    pub source_origins: Vec<(String, String)>,
    pub participants: Vec<StoredCohortParticipant>,
    pub removed_participant_npubs: Vec<String>,
    pub independently_retained_npubs: Vec<String>,
    pub required_recipient_npubs: Vec<String>,
    pub current_key_version: u32,
    pub new_key_version: u32,
}

/// Why a removal rotation grant does not fit the reviewed plan, if it does not.
pub open spec fn removal_grant_fault(g: FolderKeyGrantMetadata, folder_id: Seq<char>, new_version: u32, actor: Seq<char>) -> Option<Seq<char>> {
    if grant_metadata_fault(g) is Some {
        grant_metadata_fault(g)
    } else if g.folder_id@ != folder_id || g.key_version != new_version || g.issuer_npub@ != actor {
        Some("mailbox Folder rotation grant does not match the reviewed plan"@)
    } else {
        None
    }
}

pub open spec fn removal_grant_check(folder_id: Seq<char>, new_version: u32, actor: Seq<char>) -> spec_fn(FolderKeyGrantMetadata) -> Option<Seq<char>> {
    |g: FolderKeyGrantMetadata| removal_grant_fault(g, folder_id, new_version, actor)
}

/// Outcome of checking a reviewed cohort Folder access removal.
pub open spec fn cohort_removal_outcome(
    r: Result<(), StoreError>,
    stored: StoredBrain,
    folder_id: Seq<char>,
    plan: AccountCohortFolderRemovalPlan,
    actor: Seq<char>,
    grants: Seq<FolderKeyGrantMetadata>,
    records: Seq<FolderObjectRevisionSyncRecord>,
    controls: Seq<SyncRecordInput>,
    objects: Seq<CurrentEncryptedObject>,
) -> bool {
    if plan.removed_participant_npubs.len() == 0 {
        r matches Err(e) && is_broken(e, "mailbox Folder removal has no effective access to revoke"@)
    } else if !has_operational_authority(stored, actor) {
        r matches Err(e) && is_broken(e, "mailbox Folder removal requires Brain operational authority"@)
    } else {
        match folder_with_id(stored.brain.folders@, folder_id) {
            None => r matches Err(e) && is_missing_folder(e, folder_id),
            Some(folder) => if folder.current_key_version != plan.current_key_version || plan.new_key_version
                != folder.current_key_version + 1 {
                r matches Err(e) && is_broken(e, "mailbox Folder removal plan is stale"@)
            } else if !recipients_match(grants, plan.required_recipient_npubs@) || grants.len()
                != plan.required_recipient_npubs.len() {
                r matches Err(e) && is_broken(e, "mailbox Folder rotation grants must exactly match remaining readers"@)
            } else if first_fault(grants, removal_grant_check(folder_id, plan.new_key_version, actor)) is Some {
                r matches Err(e) && is_broken(e, first_fault(grants, removal_grant_check(folder_id, plan.new_key_version, actor))->0)
            } else if controls.len() != grants.len() + 1 {
                r matches Err(e) && is_broken(e, "mailbox Folder removal requires grant records plus one access-change record"@)
            } else if first_grant_control_fault(grants, controls.take(grants.len() as int)) is Some {
                r matches Err(e) && is_broken(e, first_grant_control_fault(grants, controls.take(grants.len() as int))->0)
            } else {
                match controls[grants.len() as int] {
                    SyncRecordInput::Control(c) => if c.record_type != SyncRecordType::BrainAdminAccessChange || !(
                    c.folder_id matches Some(f) && f@ == folder_id) || c.actor_npub@ != actor {
                        r matches Err(e) && is_broken(e, "mailbox Folder removal access-change record does not match the plan"@)
                    } else {
                        rotation_records_outcome(r, live_objects(objects, folder_id), records)
                    },
                    _ => r matches Err(e) && is_broken(e, "mailbox Folder removal access-change must be a control record"@),
                }
            },
        }
    }
}

/// Check a reviewed cohort Folder access removal before anything is
/// written: something to revoke, Brain operational authority, a plan for
/// the Folder's current key, grants for exactly the remaining readers at the
/// new key version issued by the actor, one grant control per grant plus
/// the actor's access-change control for the Folder, and every live object
/// re-encrypted once.
#[verifier::loop_isolation(false)]
pub fn check_cohort_folder_access_removal(
    stored: &StoredBrain,
    folder_id: &str,
    plan: &AccountCohortFolderRemovalPlan,
    actor: &str,
    grants: &Vec<FolderKeyGrantMetadata>,
    reencrypted_records: &Vec<FolderObjectRevisionSyncRecord>,
    control_records: &Vec<SyncRecordInput>,
    current_objects: &Vec<CurrentEncryptedObject>,
) -> (r: Result<(), StoreError>)
    ensures
        cohort_removal_outcome(
            r,
            *stored,
            folder_id@,
            *plan,
            actor@,
            grants@,
            reencrypted_records@,
            control_records@,
            current_objects@,
        ),
{
    if plan.removed_participant_npubs.len() == 0 {
        return Err(broken("mailbox Folder removal has no effective access to revoke"));
    }
    if !has_brain_operational_authority(stored, actor) {
        return Err(broken("mailbox Folder removal requires Brain operational authority"));
    }
    let idx = match find_folder(&stored.brain.folders, folder_id) {
        None => {
            return Err(StoreError::MissingFolder { folder_id: folder_id.to_owned() });
        },
        Some(i) => i,
    };
    let folder = &stored.brain.folders[idx];
    if folder.current_key_version != plan.current_key_version || folder.current_key_version == u32::MAX
        || plan.new_key_version != folder.current_key_version + 1 {
        return Err(broken("mailbox Folder removal plan is stale"));
    }
    if !grants_to_exactly(grants, &plan.required_recipient_npubs) || grants.len() != plan.required_recipient_npubs.len() {
        return Err(broken("mailbox Folder rotation grants must exactly match remaining readers"));
    }
    let ghost check = removal_grant_check(folder_id@, plan.new_key_version, actor@);
    proof {
        lemma_first_fault_start(grants@, check);
    }
    let mut g: usize = 0;
    while g < grants.len()
        invariant
            g <= grants.len(),
            check == removal_grant_check(folder_id@, plan.new_key_version, actor@),
            first_fault(grants@, check) == first_fault(grants@.skip(g as int), check),
        decreases grants.len() - g,
    {
        proof {
            lemma_first_fault_step(grants@, check, g as int);
        }
        let grant = &grants[g];
        if let Err(e) = validate_grant_metadata(grant) {
            return Err(e);
        }
        if !str_eq(grant.folder_id.as_str(), folder_id) || grant.key_version != plan.new_key_version || !str_eq(
            grant.issuer_npub.as_str(),
            actor,
        ) {
            return Err(broken("mailbox Folder rotation grant does not match the reviewed plan"));
        }
        g += 1;
    }
    proof {
        lemma_first_fault_end(grants@, check);
    }
    if control_records.len() == 0 || control_records.len() - 1 != grants.len() {
        return Err(broken("mailbox Folder removal requires grant records plus one access-change record"));
    }
    if let Err(e) = check_pairs(grants, control_records, grants.len()) {
        return Err(e);
    }
    match &control_records[grants.len()] {
        SyncRecordInput::Control(c) => {
            let names_folder = match &c.folder_id {
                Some(f) => str_eq(f.as_str(), folder_id),
                None => false,
            };
            if c.record_type != SyncRecordType::BrainAdminAccessChange || !names_folder || !str_eq(
                c.actor_npub.as_str(),
                actor,
            ) {
                return Err(broken("mailbox Folder removal access-change record does not match the plan"));
            }
        },
        _ => {
            return Err(broken("mailbox Folder removal access-change must be a control record"));
        },
    }
    let live = live_objects_of(current_objects, folder_id);
    validate_rotation_records(&live, reencrypted_records)
}

/// The grants go to exactly the listed recipients.
fn grants_to_exactly(grants: &Vec<FolderKeyGrantMetadata>, required: &Vec<String>) -> (r: bool)
    ensures
        r == recipients_match(grants@, required@),
{
    let mut i: usize = 0;
    while i < grants.len()
        invariant
            i <= grants.len(),
            forall|k: int| 0 <= k < i ==> seq_has(required@, (#[trigger] grants@[k]).recipient_npub@),
        decreases grants.len() - i,
    {
        if !texts_contain(required, grants[i].recipient_npub.as_str()) {
            proof {
                assert(grants_recipient(grants@, grants@[i as int].recipient_npub@));
            }
            return false;
        }
        i += 1;
    }
    let mut j: usize = 0;
    while j < required.len()
        invariant
            j <= required.len(),
            forall|k: int| 0 <= k < grants.len() ==> seq_has(required@, (#[trigger] grants@[k]).recipient_npub@),
            forall|k: int| 0 <= k < j ==> grants_recipient(grants@, (#[trigger] required@[k])@),
        decreases required.len() - j,
    {
        if !grants_to(grants, required[j].as_str()) {
            proof {
                assert(seq_has(required@, required@[j as int]@));
            }
            return false;
        }
        j += 1;
    }
    proof {
        assert forall|u: Seq<char>| grants_recipient(grants@, u) <==> seq_has(required@, u) by {
            if grants_recipient(grants@, u) {
                let k = choose|k: int| 0 <= k < grants@.len() && (#[trigger] grants@[k]).recipient_npub@ == u;
                assert(seq_has(required@, grants@[k].recipient_npub@));
            }
            if seq_has(required@, u) {
                let k = choose|k: int| 0 <= k < required@.len() && (#[trigger] required@[k])@ == u;
                assert(grants_recipient(grants@, required@[k]@));
            }
        }
    }
    true
}

/// One row of a mailbox's active cohort participation in a Brain.
#[derive(Debug, Clone, PartialEq, Eq)]
pub struct CohortAccessRow {
    pub cohort_id: String,
    /// How the cohort came to exist: `mailbox_folder_access`, `invitation`, ...
    pub provenance_kind: String,
    pub provenance_id: String,
    pub participant: StoredCohortParticipant,
}

/// The Folder access source a cohort row created, if it created one: a
/// direct grant recorded under the cohort, or the invitation it came from.
pub open spec fn row_source(row: CohortAccessRow) -> Option<(Seq<char>, Seq<char>)> {
    if row.provenance_kind@ == "mailbox_folder_access"@ {
        Some(("direct"@, row.cohort_id@))
    } else if row.provenance_kind@ == "invitation"@ {
        Some(("invitation"@, row.provenance_id@))
    } else {
        None
    }
}

/// The pair occurs in the list.
pub open spec fn pair_has(v: Seq<(String, String)>, p: (Seq<char>, Seq<char>)) -> bool {
    exists|i: int| 0 <= i < v.len() && (#[trigger] v[i]).0@ == p.0 && v[i].1@ == p.1
}

/// Some row creates the access source.
pub open spec fn rows_create(rows: Seq<CohortAccessRow>, p: (Seq<char>, Seq<char>)) -> bool {
    exists|i: int| 0 <= i < rows.len() && row_source(#[trigger] rows[i]) == Some(p)
}

/// Some row that creates an access source belongs to the cohort.
pub open spec fn rows_cohort(rows: Seq<CohortAccessRow>, c: Seq<char>) -> bool {
    exists|i: int| 0 <= i < rows.len() && row_source(#[trigger] rows[i]) is Some && rows[i].cohort_id@ == c
}

fn add_pair(v: &mut Vec<(String, String)>, a: &str, b: &str)
    ensures
        forall|p: (Seq<char>, Seq<char>)| #[trigger] pair_has(final(v)@, p) <==> (pair_has(old(v)@, p) || p == (a@, b@)),
{
    let ghost prev = v@;
    let mut i: usize = 0;
    while i < v.len()
        invariant
            i <= v.len(),
            v@ == prev,
            forall|k: int| 0 <= k < i ==> !((#[trigger] v@[k]).0@ == a@ && v@[k].1@ == b@),
        decreases v.len() - i,
    {
        if str_eq(v[i].0.as_str(), a) && str_eq(v[i].1.as_str(), b) {
            proof {
                assert forall|p: (Seq<char>, Seq<char>)| #[trigger] pair_has(v@, p) <==> (pair_has(prev, p) || p == (a@, b@)) by {
                    if p == (a@, b@) {
                        assert(v@[i as int].0@ == p.0 && v@[i as int].1@ == p.1);
                    }
                }
            }
            return;
        }
        i += 1;
    }
    v.push((a.to_owned(), b.to_owned()));
    proof {
        assert forall|p: (Seq<char>, Seq<char>)| #[trigger] pair_has(v@, p) <==> (pair_has(prev, p) || p == (a@, b@)) by {
            if pair_has(v@, p) {
                let k = choose|k: int| 0 <= k < v@.len() && (#[trigger] v@[k]).0@ == p.0 && v@[k].1@ == p.1;
                if k < prev.len() {
                    assert(prev[k] == v@[k]);
                }
            }
            if pair_has(prev, p) {
                let k = choose|k: int| 0 <= k < prev.len() && (#[trigger] prev[k]).0@ == p.0 && prev[k].1@ == p.1;
                assert(v@[k] == prev[k]);
            }
            if p == (a@, b@) {
                assert(v@[prev.len() as int].0@ == a@);
            }
        }
    }
}

/// The cohorts and access sources a mailbox's cohort rows created, each
/// once; a mailbox without any is refused.
pub fn cohort_access_origins(rows: &Vec<CohortAccessRow>) -> (r: Result<(Vec<String>, Vec<(String, String)>), StoreError>)
    ensures
        match r {
            Ok((cohorts, origins)) => {
                &&& exists|p: (Seq<char>, Seq<char>)| rows_create(rows@, p)
                &&& texts_distinct(cohorts@)
                &&& forall|c: Seq<char>| #[trigger] seq_has(cohorts@, c) <==> rows_cohort(rows@, c)
                &&& forall|p: (Seq<char>, Seq<char>)| #[trigger] pair_has(origins@, p) <==> rows_create(rows@, p)
            },
            Err(e) => !(exists|p: (Seq<char>, Seq<char>)| rows_create(rows@, p)) && is_broken(
                e,
                "mailbox has no cohort-derived access in this Folder"@,
            ),
        },
{
    let mut cohorts: Vec<String> = Vec::new();
    let mut origins: Vec<(String, String)> = Vec::new();
    let mut i: usize = 0;
    while i < rows.len()
        invariant
            i <= rows.len(),
            texts_distinct(cohorts@),
            forall|c: Seq<char>| #[trigger] seq_has(cohorts@, c) <==> rows_cohort(rows@.take(i as int), c),
            forall|p: (Seq<char>, Seq<char>)| #[trigger] pair_has(origins@, p) <==> rows_create(rows@.take(i as int), p),
        decreases rows.len() - i,
    {
        let row = &rows[i];
        let ghost before_c = cohorts@;
        let ghost before_o = origins@;
        proof {
            reveal_strlit("mailbox_folder_access");
            reveal_strlit("invitation");
            reveal_strlit("direct");
        }
        let mut created = true;
        if str_eq(row.provenance_kind.as_str(), "mailbox_folder_access") {
            add_pair(&mut origins, "direct", row.cohort_id.as_str());
        } else if str_eq(row.provenance_kind.as_str(), "invitation") {
            add_pair(&mut origins, "invitation", row.provenance_id.as_str());
        } else {
            created = false;
        }
        if created {
            crate::deletion::add_text(&mut cohorts, row.cohort_id.as_str());
        }
        proof {
            let t0 = rows@.take(i as int);
            let t1 = rows@.take(i + 1);
            assert(t1[i as int] == rows@[i as int]);
            assert(created == (row_source(rows@[i as int]) is Some));
            assert forall|c: Seq<char>| #[trigger] seq_has(cohorts@, c) <==> rows_cohort(t1, c) by {
                if rows_cohort(t1, c) {
                    let k = choose|k: int| 0 <= k < t1.len() && row_source(#[trigger] t1[k]) is Some && t1[k].cohort_id@ == c;
                    if k < i {
                        assert(t0[k] == t1[k]);
                        assert(rows_cohort(t0, c));
                    }
                }
                if rows_cohort(t0, c) {
                    let k = choose|k: int| 0 <= k < t0.len() && row_source(#[trigger] t0[k]) is Some && t0[k].cohort_id@ == c;
                    assert(t1[k] == t0[k]);
                }
            }
            assert forall|p: (Seq<char>, Seq<char>)| #[trigger] pair_has(origins@, p) <==> rows_create(t1, p) by {
                if rows_create(t1, p) {
                    let k = choose|k: int| 0 <= k < t1.len() && row_source(#[trigger] t1[k]) == Some(p);
                    if k < i {
                        assert(t0[k] == t1[k]);
                        assert(rows_create(t0, p));
                    }
                }
                if rows_create(t0, p) {
                    let k = choose|k: int| 0 <= k < t0.len() && row_source(#[trigger] t0[k]) == Some(p);
                    assert(t1[k] == t0[k]);
                }
            }
        }
        i += 1;
    }
    proof {
        assert(rows@.take(i as int) =~= rows@);
    }
    if origins.len() == 0 {
        proof {
            assert forall|p: (Seq<char>, Seq<char>)| !rows_create(rows@, p) by {
                if rows_create(rows@, p) {
                    assert(pair_has(origins@, p));
                }
            }
        }
        return Err(broken("mailbox has no cohort-derived access in this Folder"));
    }
    proof {
        let p = (origins@[0].0@, origins@[0].1@);
        assert(pair_has(origins@, p));
    }
    Ok((cohorts, origins))
}

/// What the store knows of one cohort participant's access to the Folder.
#[derive(Debug, Clone, PartialEq, Eq)]
pub struct ParticipantAccess {
    pub npub: String,
    /// The participant's recorded access sources for the Folder.
    pub sources: Vec<(String, String)>,
    /// The participant is a ready Personal Brain agent.
    pub ready_personal_agent: bool,
    /// The human that anchors the participant's agent authority, if any.
    pub anchoring_human: Option<String>,
}

/// The participant reads the Folder natively: as owner, admin, ready
/// Personal Brain agent, or as an agent anchored to the owner or an admin.
pub open spec fn native_reader(stored: StoredBrain, p: ParticipantAccess) -> bool {
    ||| is_owner(stored.brain, p.npub@)
    ||| is_admin(stored.brain, p.npub@)
    ||| p.ready_personal_agent
    ||| (p.anchoring_human matches Some(h) && (is_owner(stored.brain, h@) || is_admin(stored.brain, h@)))
}

/// Some source of the participant is a cohort source.
pub open spec fn cohort_sourced(origins: Seq<(String, String)>, p: ParticipantAccess) -> bool {
    exists|i: int| 0 <= i < p.sources.len() && pair_has(origins, ((#[trigger] p.sources@[i]).0@, p.sources@[i].1@))
}

/// Some source of the participant is not a cohort source.
pub open spec fn independently_sourced(origins: Seq<(String, String)>, p: ParticipantAccess) -> bool {
    exists|i: int| 0 <= i < p.sources.len() && !pair_has(origins, ((#[trigger] p.sources@[i]).0@, p.sources@[i].1@))
}

/// The cohort removal takes the participant's access away: it came from
/// the cohort only and the participant has no native access.
pub open spec fn loses_access(stored: StoredBrain, origins: Seq<(String, String)>, p: ParticipantAccess) -> bool {
    cohort_sourced(origins, p) && !independently_sourced(origins, p) && !native_reader(stored, p)
}

/// The participant keeps its access despite the cohort removal.
pub open spec fn keeps_access(stored: StoredBrain, origins: Seq<(String, String)>, p: ParticipantAccess) -> bool {
    cohort_sourced(origins, p) && (independently_sourced(origins, p) || native_reader(stored, p))
}

fn sourcing(origins: &Vec<(String, String)>, p: &ParticipantAccess) -> (r: (bool, bool))
    ensures
        r.0 == cohort_sourced(origins@, *p),
        r.1 == independently_sourced(origins@, *p),
{
    let mut from_cohort = false;
    let mut independent = false;
    let mut i: usize = 0;
    while i < p.sources.len()
        invariant
            i <= p.sources.len(),
            from_cohort == exists|k: int| 0 <= k < i && pair_has(origins@, ((#[trigger] p.sources@[k]).0@, p.sources@[k].1@)),
            independent == exists|k: int| 0 <= k < i && !pair_has(origins@, ((#[trigger] p.sources@[k]).0@, p.sources@[k].1@)),
        decreases p.sources.len() - i,
    {
        let (a, b) = (&p.sources[i].0, &p.sources[i].1);
        let mut found = false;
        let mut j: usize = 0;
        while j < origins.len()
            invariant
                j <= origins.len(),
                i < p.sources.len(),
                a@ == p.sources@[i as int].0@,
                b@ == p.sources@[i as int].1@,
                found == exists|k: int| 0 <= k < j && (#[trigger] origins@[k]).0@ == a@ && origins@[k].1@ == b@,
            decreases origins.len() - j,
        {
            if str_eq(origins[j].0.as_str(), a.as_str()) && str_eq(origins[j].1.as_str(), b.as_str()) {
                found = true;
            }
            proof {
                if exists|k: int| 0 <= k < j + 1 && (#[trigger] origins@[k]).0@ == a@ && origins@[k].1@ == b@ {
                    let k = choose|k: int| 0 <= k < j + 1 && (#[trigger] origins@[k]).0@ == a@ && origins@[k].1@ == b@;
                    if k < j {
                        assert(exists|k: int| 0 <= k < j && (#[trigger] origins@[k]).0@ == a@ && origins@[k].1@ == b@);
                    }
                }
            }
            j += 1;
        }
        proof {
            assert(found == pair_has(origins@, (a@, b@)));
        }
        if found {
            from_cohort = true;
        } else {
            independent = true;
        }
        proof {
            assert(from_cohort == exists|k: int| 0 <= k < i + 1 && pair_has(origins@, ((#[trigger] p.sources@[k]).0@, p.sources@[k].1@))) by {
                if exists|k: int| 0 <= k < i + 1 && pair_has(origins@, ((#[trigger] p.sources@[k]).0@, p.sources@[k].1@)) {
                    let k = choose|k: int| 0 <= k < i + 1 && pair_has(origins@, ((#[trigger] p.sources@[k]).0@, p.sources@[k].1@));
                    if k < i {
                        assert(exists|k: int| 0 <= k < i && pair_has(origins@, ((#[trigger] p.sources@[k]).0@, p.sources@[k].1@)));
                    }
                }
            }
            assert(independent == exists|k: int| 0 <= k < i + 1 && !pair_has(origins@, ((#[trigger] p.sources@[k]).0@, p.sources@[k].1@))) by {
                if exists|k: int| 0 <= k < i + 1 && !pair_has(origins@, ((#[trigger] p.sources@[k]).0@, p.sources@[k].1@)) {
                    let k = choose|k: int| 0 <= k < i + 1 && !pair_has(origins@, ((#[trigger] p.sources@[k]).0@, p.sources@[k].1@));
                    if k < i {
                        assert(exists|k: int| 0 <= k < i && !pair_has(origins@, ((#[trigger] p.sources@[k]).0@, p.sources@[k].1@)));
                    }
                }
            }
        }
        i += 1;
    }
    (from_cohort, independent)
}

/// Some participant with this npub loses its access.
pub open spec fn names_loser(stored: StoredBrain, origins: Seq<(String, String)>, ps: Seq<ParticipantAccess>, n: int, s: String) -> bool {
    exists|i: int| 0 <= i < n && (#[trigger] ps[i]).npub@ == s@ && loses_access(stored, origins, ps[i])
}

/// Some participant with this npub keeps its access.
pub open spec fn names_keeper(stored: StoredBrain, origins: Seq<(String, String)>, ps: Seq<ParticipantAccess>, n: int, s: String) -> bool {
    exists|i: int| 0 <= i < n && (#[trigger] ps[i]).npub@ == s@ && keeps_access(stored, origins, ps[i])
}

/// Split the participants of a cohort Folder removal into those whose
/// access goes and those who keep it through an independent source or
/// native access; participants without cohort-sourced access are in
/// neither list.
pub fn classify_cohort_participants(
    stored: &StoredBrain,
    origins: &Vec<(String, String)>,
    participants: &Vec<ParticipantAccess>,
) -> (r: (Vec<String>, Vec<String>))
    ensures
        r.0.len() <= participants.len(),
        r.1.len() <= participants.len(),
        forall|k: int| 0 <= k < r.0.len() ==> names_loser(*stored, origins@, participants@, participants.len() as int, #[trigger] r.0@[k]),
        forall|k: int| 0 <= k < r.1.len() ==> names_keeper(*stored, origins@, participants@, participants.len() as int, #[trigger] r.1@[k]),
        forall|i: int| 0 <= i < participants.len() && loses_access(*stored, origins@, #[trigger] participants@[i])
            ==> seq_has(r.0@, participants@[i].npub@),
        forall|i: int| 0 <= i < participants.len() && keeps_access(*stored, origins@, #[trigger] participants@[i])
            ==> seq_has(r.1@, participants@[i].npub@),
{
    let mut removed: Vec<String> = Vec::new();
    let mut retained: Vec<String> = Vec::new();
    let mut i: usize = 0;
    while i < participants.len()
        invariant
            i <= participants.len(),
            removed.len() <= i,
            retained.len() <= i,
            forall|k: int| 0 <= k < removed.len() ==> names_loser(*stored, origins@, participants@, i as int, #[trigger] removed@[k]),
            forall|k: int| 0 <= k < retained.len() ==> names_keeper(*stored, origins@, participants@, i as int, #[trigger] retained@[k]),
            forall|j: int| 0 <= j < i && loses_access(*stored, origins@, #[trigger] participants@[j]) ==> seq_has(
                removed@,
                participants@[j].npub@,
            ),
            forall|j: int| 0 <= j < i && keeps_access(*stored, origins@, #[trigger] participants@[j]) ==> seq_has(
                retained@,
                participants@[j].npub@,
            ),
        decreases participants.len() - i,
    {
        let p = &participants[i];
        let (from_cohort, independent) = sourcing(origins, p);
        let ghost prev_r = removed@;
        let ghost prev_k = retained@;
        if from_cohort {
            let anchored = match &p.anchoring_human {
                Some(h) => brain_is_owner(&stored.brain, h.as_str()) || brain_is_admin(&stored.brain, h.as_str()),
                None => false,
            };
            let native = brain_is_owner(&stored.brain, p.npub.as_str()) || brain_is_admin(&stored.brain, p.npub.as_str())
                || p.ready_personal_agent || anchored;
            if independent || native {
                retained.push(p.npub.clone());
            } else {
                removed.push(p.npub.clone());
            }
        }
        proof {
            assert forall|k: int| 0 <= k < removed.len() implies names_loser(*stored, origins@, participants@, i + 1, #[trigger] removed@[k]) by {
                if k < prev_r.len() {
                    assert(removed@[k] == prev_r[k]);
                    assert(names_loser(*stored, origins@, participants@, i as int, prev_r[k]));
                    let j = choose|j: int| 0 <= j < i && (#[trigger] participants@[j]).npub@ == prev_r[k]@ && loses_access(*stored, origins@, participants@[j]);
                } else {
                    assert(participants@[i as int].npub@ == removed@[k]@);
                }
            }
            assert forall|k: int| 0 <= k < retained.len() implies names_keeper(*stored, origins@, participants@, i + 1, #[trigger] retained@[k]) by {
                if k < prev_k.len() {
                    assert(retained@[k] == prev_k[k]);
                    assert(names_keeper(*stored, origins@, participants@, i as int, prev_k[k]));
                    let j = choose|j: int| 0 <= j < i && (#[trigger] participants@[j]).npub@ == prev_k[k]@ && keeps_access(*stored, origins@, participants@[j]);
                } else {
                    assert(participants@[i as int].npub@ == retained@[k]@);
                }
            }
            assert forall|j: int| 0 <= j < i + 1 && loses_access(*stored, origins@, #[trigger] participants@[j]) implies seq_has(
                removed@,
                participants@[j].npub@,
            ) by {
                if j < i {
                    let q = choose|q: int| 0 <= q < prev_r.len() && (#[trigger] prev_r[q])@ == participants@[j].npub@;
                    assert(removed@[q] == prev_r[q]);
                } else {
                    assert(removed@[prev_r.len() as int]@ == participants@[j].npub@);
                }
            }
            assert forall|j: int| 0 <= j < i + 1 && keeps_access(*stored, origins@, #[trigger] participants@[j]) implies seq_has(
                retained@,
                participants@[j].npub@,
            ) by {
                if j < i {
                    let q = choose|q: int| 0 <= q < prev_k.len() && (#[trigger] prev_k[q])@ == participants@[j].npub@;
                    assert(retained@[q] == prev_k[q]);
                } else {
                    assert(retained@[prev_k.len() as int]@ == participants@[j].npub@);
                }
            }
        }
        i += 1;
    }
    (removed, retained)
}

/// Which access a reconciliation covers: the whole Brain for a Member (or
/// owner), or one Folder the human holds explicit access to.
#[derive(Debug, Clone, PartialEq, Eq)]
pub struct ReconciliationScope {
    pub human_npub: String,
    /// The Folder of a Folder-only reconciliation; none for the whole Brain.
    pub folder_id: Option<String>,
}

/// The first participant that is the human.
pub open spec fn first_human(ps: Seq<CohortParticipant>) -> Option<int> {
    if exists|i: int| 0 <= i < ps.len() && is_human(#[trigger] ps[i]) {
        Some(choose|i: int| 0 <= i < ps.len() && is_human(#[trigger] ps[i]) && forall|j: int| 0 <= j < i ==> !is_human(#[trigger] ps[j]))
    } else {
        None
    }
}

/// Outcome of deciding a reconciliation's scope.
pub open spec fn reconciliation_scope_outcome(
    r: Result<ReconciliationScope, StoreError>,
    stored: StoredBrain,
    cohort: BootstrapAccountCohort,
    folder_id: Option<Seq<char>>,
    actor: Seq<char>,
) -> bool {
    if !has_operational_authority(stored, actor) {
        r matches Err(e) && is_broken(e, "cohort reconciliation requires Brain operational authority"@)
    } else {
        match first_human(cohort.participants@) {
            None => r matches Err(e) && is_broken(e, "reconciliation cohort human is missing"@),
            Some(h) => {
                let human = cohort.participants@[h].npub@;
                if is_owner(stored.brain, human) || is_member(stored.brain, human) {
                    match folder_id {
                        None => r matches Ok(s) && s.human_npub@ == human && s.folder_id is None,
                        Some(_) => r matches Err(e) && is_broken(e, "a Brain Member must reconcile as one complete Brain unit"@),
                    }
                } else {
                    match folder_id {
                        Some(f) => if has_explicit_access(stored, f, human) {
                            r matches Ok(s) && s.human_npub@ == human && (s.folder_id matches Some(sf) && sf@ == f)
                        } else {
                            r matches Err(e) && is_broken(e, "human has no matching legacy Member or Folder-only Guest access"@)
                        },
                        None => r matches Err(e) && is_broken(e, "human has no matching legacy Member or Folder-only Guest access"@),
                    }
                }
            },
        }
    }
}

fn participant_is_human(p: &CohortParticipant) -> (r: bool)
    ensures
        r == is_human(*p),
{
    proof {
        reveal_strlit("human");
    }
    str_eq(p.relationship.as_str(), "human")
}

/// Decide what a cohort reconciliation covers.
pub fn reconciliation_scope(
    stored: &StoredBrain,
    cohort: &BootstrapAccountCohort,
    folder_id: Option<&str>,
    actor: &str,
) -> (r: Result<ReconciliationScope, StoreError>)
    ensures
        reconciliation_scope_outcome(
            r,
            *stored,
            *cohort,
            match folder_id {
                Some(f) => Some(f@),
                None => None,
            },
            actor@,
        ),
{
    if !has_brain_operational_authority(stored, actor) {
        return Err(broken("cohort reconciliation requires Brain operational authority"));
    }
    let ps = &cohort.participants;
    let mut i: usize = 0;
    while i < ps.len() && !participant_is_human(&ps[i])
        invariant
            i <= ps.len(),
            forall|j: int| 0 <= j < i ==> !is_human(#[trigger] ps@[j]),
        decreases ps.len() - i,
    {
        i += 1;
    }
    if i == ps.len() {
        return Err(broken("reconciliation cohort human is missing"));
    }
    proof {
        reveal_strlit("human");
        let k = first_human(ps@)->0;
        assert(is_human(ps@[i as int]));
        if k < i {
            assert(!is_human(ps@[k]));
        }
        if (i as int) < k {
            assert(!is_human(ps@[i as int]));
        }
    }
    let human = ps[i].npub.as_str();
    if brain_is_owner(&stored.brain, human) || crate::model::brain_is_member(&stored.brain, human) {
        match folder_id {
            None => Ok(ReconciliationScope { human_npub: human.to_owned(), folder_id: None }),
            Some(_) => Err(broken("a Brain Member must reconcile as one complete Brain unit")),
        }
    } else {
        match folder_id {
            Some(f) => if crate::model::stored_has_explicit_access(stored, f, human) {
                Ok(ReconciliationScope { human_npub: human.to_owned(), folder_id: Some(f.to_owned()) })
            } else {
                Err(broken("human has no matching legacy Member or Folder-only Guest access"))
            },
            None => Err(broken("human has no matching legacy Member or Folder-only Guest access")),
        }
    }
}

/// One Folder of a reconciliation: which participants already hold a
/// current-key grant and which still need one.
#[derive(Debug, Clone, PartialEq, Eq)]
pub struct ReconciliationFolderPlan {
    pub folder_id: String,
    pub key_version: u32,
    pub current_grant_recipient_npubs: Vec<String>,
    pub missing_grant_recipient_npubs: Vec<String>,
}

/// The participant holds a grant for the Folder's current key.
pub open spec fn holds_current_grant(stored: StoredBrain, folder: Folder, u: Seq<char>) -> bool {
    exists|i: int|
        0 <= i < stored.grants.len() && (#[trigger] stored.grants@[i]).folder_id@ == folder.id@
            && stored.grants@[i].key_version == folder.current_key_version && stored.grants@[i].recipient_npub@ == u
}

fn holds_current_grant_exec(stored: &StoredBrain, folder: &Folder, u: &str) -> (r: bool)
    ensures
        r == holds_current_grant(*stored, *folder, u@),
{
    let mut i: usize = 0;
    while i < stored.grants.len()
        invariant
            i <= stored.grants.len(),
            forall|k: int| 0 <= k < i ==> !((#[trigger] stored.grants@[k]).folder_id@ == folder.id@
                && stored.grants@[k].key_version == folder.current_key_version && stored.grants@[k].recipient_npub@ == u@),
        decreases stored.grants.len() - i,
    {
        let g = &stored.grants[i];
        if str_eq(g.folder_id.as_str(), folder.id.as_str()) && g.key_version == folder.current_key_version && str_eq(
            g.recipient_npub.as_str(),
            u,
        ) {
            return true;
        }
        i += 1;
    }
    false
}

/// Split the cohort participants by whether they hold a grant for the
/// Folder's current key.
pub fn reconciliation_folder(stored: &StoredBrain, folder: &Folder, participants: &Vec<CohortParticipant>) -> (r:
    ReconciliationFolderPlan)
    ensures
        r.folder_id@ == folder.id@,
        r.key_version == folder.current_key_version,
        forall|u: Seq<char>| #[trigger] seq_has(r.current_grant_recipient_npubs@, u) <==> (
            crate::bootstrap::has_cohort_participant(participants@, u) && holds_current_grant(*stored, *folder, u)),
        forall|u: Seq<char>| #[trigger] seq_has(r.missing_grant_recipient_npubs@, u) <==> (
            crate::bootstrap::has_cohort_participant(participants@, u) && !holds_current_grant(*stored, *folder, u)),
{
    let mut current: Vec<String> = Vec::new();
    let mut missing: Vec<String> = Vec::new();
    let mut i: usize = 0;
    while i < participants.len()
        invariant
            i <= participants.len(),
            texts_distinct(current@),
            texts_distinct(missing@),
            forall|u: Seq<char>| #[trigger] seq_has(current@, u) <==> (
                crate::bootstrap::has_cohort_participant(participants@.take(i as int), u) && holds_current_grant(*stored, *folder, u)),
            forall|u: Seq<char>| #[trigger] seq_has(missing@, u) <==> (
                crate::bootstrap::has_cohort_participant(participants@.take(i as int), u) && !holds_current_grant(*stored, *folder, u)),
        decreases participants.len() - i,
    {
        let ghost c0 = current@;
        let ghost m0 = missing@;
        let npub = participants[i].npub.as_str();
        let held = holds_current_grant_exec(stored, folder, npub);
        if held {
            crate::deletion::add_text(&mut current, npub);
        } else {
            crate::deletion::add_text(&mut missing, npub);
        }
        proof {
            let t0 = participants@.take(i as int);
            let t1 = participants@.take(i + 1);
            assert forall|u: Seq<char>| crate::bootstrap::has_cohort_participant(t1, u) <==> (crate::bootstrap::has_cohort_participant(t0, u) || u == npub@) by {
                if crate::bootstrap::has_cohort_participant(t1, u) {
                    let k = choose|k: int| 0 <= k < t1.len() && (#[trigger] t1[k]).npub@ == u;
                    if k < i {
                        assert(t0[k] == t1[k]);
                    }
                }
                if crate::bootstrap::has_cohort_participant(t0, u) {
                    let k = choose|k: int| 0 <= k < t0.len() && (#[trigger] t0[k]).npub@ == u;
                    assert(t1[k] == t0[k]);
                }
                if u == npub@ {
                    assert(t1[i as int].npub@ == u);
                }
            }
        }
        i += 1;
    }
    proof {
        assert(participants@.take(i as int) =~= participants@);
    }
    ReconciliationFolderPlan {
        folder_id: folder.id.clone(),
        key_version: folder.current_key_version,
        current_grant_recipient_npubs: current,
        missing_grant_recipient_npubs: missing,
    }
}

/// The reviewed reconciliation misses a grant with this (Folder,
/// recipient, key version).
pub open spec fn reviewed_missing(folders: Seq<ReconciliationFolderPlan>, t: (Seq<char>, Seq<char>, u32)) -> bool {
    exists|i: int|
        0 <= i < folders.len() && (#[trigger] folders[i]).folder_id@ == t.0 && folders[i].key_version == t.2 && seq_has(
            folders[i].missing_grant_recipient_npubs@,
            t.1,
        )
}

/// Why a reconciliation grant is unacceptable, if it is.
pub open spec fn reconciliation_grant_fault(g: FolderKeyGrantMetadata, actor: Seq<char>, authorized: bool) -> Option<Seq<char>> {
    if grant_metadata_fault(g) is Some {
        grant_metadata_fault(g)
    } else if g.issuer_npub@ != actor || !authorized {
        Some("reconciliation grant issuer lacks current authority"@)
    } else {
        None
    }
}

pub open spec fn reconciliation_grant_check(actor: Seq<char>, authorized: bool) -> spec_fn(FolderKeyGrantMetadata) -> Option<Seq<char>> {
    |g: FolderKeyGrantMetadata| reconciliation_grant_fault(g, actor, authorized)
}

/// What committing a reviewed reconciliation does.
#[derive(Debug, Clone, Copy, PartialEq, Eq, Structural)]
pub enum ReconciliationCommitStep {
    /// The operation was committed before.
    AlreadyCommitted,
    /// Record the cohort and write the missing grants.
    Commit,
}

/// Outcome of checking a reviewed reconciliation's commit.
pub open spec fn reconciliation_commit_outcome(
    r: Result<ReconciliationCommitStep, StoreError>,
    stored: StoredBrain,
    operation_id: Seq<char>,
    backup_reference: Seq<char>,
    already_committed: bool,
    review_current: bool,
    folders: Seq<ReconciliationFolderPlan>,
    actor: Seq<char>,
    grants: Seq<FolderKeyGrantMetadata>,
    controls: Seq<SyncRecordInput>,
) -> bool {
    if blank_or_control(operation_id) {
        r matches Err(e) && is_broken(e, field_reason("cohort_reconciliation_operation_id"@, " must be non-empty and printable"@))
    } else if blank_or_control(backup_reference) {
        r matches Err(e) && is_broken(e, "reconciliation commit requires an explicit backup reference"@)
    } else if already_committed {
        r == Ok::<ReconciliationCommitStep, StoreError>(ReconciliationCommitStep::AlreadyCommitted)
    } else if !review_current {
        r matches Err(e) && is_broken(e, "reconciliation plan is stale or blocked"@)
    } else if !(forall|t: (Seq<char>, Seq<char>, u32)| grants_triple(grants, t) <==> reviewed_missing(folders, t))
        || !grant_triples_distinct(grants) {
        r matches Err(e) && is_broken(e, "reconciliation grants must exactly match the reviewed missing set"@)
    } else if first_fault(grants, reconciliation_grant_check(actor, has_operational_authority(stored, actor))) is Some {
        r matches Err(e) && is_broken(
            e,
            first_fault(grants, reconciliation_grant_check(actor, has_operational_authority(stored, actor)))->0,
        )
    } else {
        crate::controls::access_mutation_outcome(unit_of(r), grants, controls, actor) && (r is Ok ==> r
            == Ok::<ReconciliationCommitStep, StoreError>(ReconciliationCommitStep::Commit))
    }
}

fn reviewed_missing_exec(folders: &Vec<ReconciliationFolderPlan>, folder_id: &str, recipient: &str, key_version: u32) -> (r: bool)
    ensures
        r == reviewed_missing(folders@, (folder_id@, recipient@, key_version)),
{
    let mut i: usize = 0;
    while i < folders.len()
        invariant
            i <= folders.len(),
            forall|k: int| 0 <= k < i ==> !((#[trigger] folders@[k]).folder_id@ == folder_id@ && folders@[k].key_version == key_version
                && seq_has(folders@[k].missing_grant_recipient_npubs@, recipient@)),
        decreases folders.len() - i,
    {
        let f = &folders[i];
        if str_eq(f.folder_id.as_str(), folder_id) && f.key_version == key_version && texts_contain(
            &f.missing_grant_recipient_npubs,
            recipient,
        ) {
            return true;
        }
        i += 1;
    }
    false
}

fn grants_have(grants: &Vec<FolderKeyGrantMetadata>, folder_id: &str, recipient: &str, key_version: u32) -> (r: bool)
    ensures
        r == grants_triple(grants@, (folder_id@, recipient@, key_version)),
{
    let mut i: usize = 0;
    while i < grants.len()
        invariant
            i <= grants.len(),
            forall|k: int| 0 <= k < i ==> grant_triple(#[trigger] grants@[k]) != (folder_id@, recipient@, key_version),
        decreases grants.len() - i,
    {
        let g = &grants[i];
        if str_eq(g.folder_id.as_str(), folder_id) && str_eq(g.recipient_npub.as_str(), recipient) && g.key_version == key_version {
            return true;
        }
        i += 1;
    }
    false
}

/// The grants carry exactly the reviewed missing (Folder, recipient, key
/// version) triples, each once.
fn grants_match_review(grants: &Vec<FolderKeyGrantMetadata>, folders: &Vec<ReconciliationFolderPlan>) -> (r: bool)
    ensures
        r == ((forall|t: (Seq<char>, Seq<char>, u32)| grants_triple(grants@, t) <==> reviewed_missing(folders@, t))
            && grant_triples_distinct(grants@)),
{
    let mut i: usize = 0;
    while i < grants.len()
        invariant
            i <= grants.len(),
            forall|k: int| 0 <= k < i ==> reviewed_missing(folders@, grant_triple(#[trigger] grants@[k])),
        decreases grants.len() - i,
    {
        let g = &grants[i];
        if !reviewed_missing_exec(folders, g.folder_id.as_str(), g.recipient_npub.as_str(), g.key_version) {
            proof {
                assert(grants_triple(grants@, grant_triple(grants@[i as int])));
            }
            return false;
        }
        i += 1;
    }
    let mut f: usize = 0;
    while f < folders.len()
        invariant
            f <= folders.len(),
            forall|k: int| 0 <= k < grants.len() ==> reviewed_missing(folders@, grant_triple(#[trigger] grants@[k])),
            forall|k: int, m: int| 0 <= k < f && 0 <= m < folders@[k].missing_grant_recipient_npubs.len() ==> grants_triple(
                grants@,
                ((#[trigger] folders@[k]).folder_id@, (#[trigger] folders@[k].missing_grant_recipient_npubs@[m])@, folders@[k].key_version),
            ),
        decreases folders.len() - f,
    {
        let plan = &folders[f];
        let mut m: usize = 0;
        while m < plan.missing_grant_recipient_npubs.len()
            invariant
                m <= plan.missing_grant_recipient_npubs.len(),
                f < folders.len(),
                *plan == folders@[f as int],
                forall|q: int| 0 <= q < m ==> grants_triple(
                    grants@,
                    (plan.folder_id@, (#[trigger] plan.missing_grant_recipient_npubs@[q])@, plan.key_version),
                ),
            decreases plan.missing_grant_recipient_npubs.len() - m,
        {
            if !grants_have(grants, plan.folder_id.as_str(), plan.missing_grant_recipient_npubs[m].as_str(), plan.key_version) {
                proof {
                    let t = (plan.folder_id@, plan.missing_grant_recipient_npubs@[m as int]@, plan.key_version);
                    assert(seq_has(plan.missing_grant_recipient_npubs@, t.1));
                    assert(reviewed_missing(folders@, t));
                }
                return false;
            }
            m += 1;
        }
        f += 1;
    }
    let distinct = crate::grants::grant_triples_are_distinct(grants);
    proof {
        assert forall|t: (Seq<char>, Seq<char>, u32)| grants_triple(grants@, t) <==> reviewed_missing(folders@, t) by {
            if grants_triple(grants@, t) {
                let k = choose|k: int| 0 <= k < grants@.len() && grant_triple(#[trigger] grants@[k]) == t;
                assert(reviewed_missing(folders@, grant_triple(grants@[k])));
            }
            if reviewed_missing(folders@, t) {
                let k = choose|k: int| 0 <= k < folders@.len() && (#[trigger] folders@[k]).folder_id@ == t.0
                    && folders@[k].key_version == t.2 && seq_has(folders@[k].missing_grant_recipient_npubs@, t.1);
                let m = choose|m: int| 0 <= m < folders@[k].missing_grant_recipient_npubs@.len()
                    && (#[trigger] folders@[k].missing_grant_recipient_npubs@[m])@ == t.1;
                assert(grants_triple(grants@, (folders@[k].folder_id@, folders@[k].missing_grant_recipient_npubs@[m]@, folders@[k].key_version)));
            }
        }
    }
    distinct
}

/// Check the commit of a reviewed cohort reconciliation before anything is
/// written: the operation id and an explicit backup reference, an operation
/// not committed before, a review that is still current and unblocked,
/// grants for exactly the reviewed missing set, each well-formed and issued
/// by the actor while it holds Brain authority, and the access-change
/// controls of a peer access change.
#[verifier::loop_isolation(false)]
pub fn check_reconciliation_commit(
    stored: &StoredBrain,
    operation_id: &str,
    backup_reference: &str,
    already_committed: bool,
    review_current: bool,
    folders: &Vec<ReconciliationFolderPlan>,
    actor: &str,
    grants: &Vec<FolderKeyGrantMetadata>,
    control_records: &Vec<SyncRecordInput>,
) -> (r: Result<ReconciliationCommitStep, StoreError>)
    ensures
        reconciliation_commit_outcome(
            r,
            *stored,
            operation_id@,
            backup_reference@,
            already_committed,
            review_current,
            folders@,
            actor@,
            grants@,
            control_records@,
        ),
{
    if let Err(e) = validate_link_id("cohort_reconciliation_operation_id", operation_id) {
        return Err(e);
    }
    if crate::text::text_is_blank(backup_reference) || crate::text::text_has_control(backup_reference) {
        return Err(broken("reconciliation commit requires an explicit backup reference"));
    }
    if already_committed {
        return Ok(ReconciliationCommitStep::AlreadyCommitted);
    }
    if !review_current {
        return Err(broken("reconciliation plan is stale or blocked"));
    }
    if !grants_match_review(grants, folders) {
        return Err(broken("reconciliation grants must exactly match the reviewed missing set"));
    }
    let authorized = has_brain_operational_authority(stored, actor);
    let ghost check = reconciliation_grant_check(actor@, authorized);
    proof {
        lemma_first_fault_start(grants@, check);
    }
    let mut g: usize = 0;
    while g < grants.len()
        invariant
            g <= grants.len(),
            check == reconciliation_grant_check(actor@, authorized),
            first_fault(grants@, check) == first_fault(grants@.skip(g as int), check),
        decreases grants.len() - g,
    {
        proof {
            lemma_first_fault_step(grants@, check, g as int);
        }
        if let Err(e) = validate_grant_metadata(&grants[g]) {
            return Err(e);
        }
        if !str_eq(grants[g].issuer_npub.as_str(), actor) || !authorized {
            return Err(broken("reconciliation grant issuer lacks current authority"));
        }
        g += 1;
    }
    proof {
        lemma_first_fault_end(grants@, check);
    }
    match crate::controls::validate_access_mutation_control_records(grants, control_records, actor) {
        Err(e) => Err(e),
        Ok(()) => Ok(ReconciliationCommitStep::Commit),
    }
}

} // verus!
