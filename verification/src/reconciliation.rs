//! The plan of an account cohort reconciliation: the Folders it covers,
//! the members and access it adds, its capacity figures and blocker, and
//! whether a reviewed plan is still current.
use vstd::prelude::*;

use crate::access::{folder_visible, folder_visible_to_actor};
use crate::bootstrap::{is_account_agent, BootstrapAccountCohort, CohortParticipant};
use crate::cohorts::{
    check_reconciliation_commit, reconciliation_commit_outcome, reconciliation_folder, holds_current_grant,
    ReconciliationCommitStep, ReconciliationFolderPlan, ReconciliationScope,
};
use crate::columns::{is_database, stored_folder_ids};
use crate::deletion::{add_text, json_string_list};
use crate::error::StoreError;
use crate::kinds::BrainKind;
use crate::model::{
    brain_is_member, has_explicit_access, is_member, seq_has, stored_has_explicit_access,
    texts_contain, texts_distinct, texts_view, Folder, FolderAccessEntry, FolderKeyGrantMetadata, StoredBrain,
};
use crate::records::SyncRecordInput;
use crate::text::{ascii_lowered, str_eq, to_ascii_lowercase, trim_text, trimmed};

verus! {

/// The accepted-state envelope a reconciliation is held against.
#[derive(Debug, Clone, Copy, PartialEq, Eq, Structural)]
pub struct CapacityLimits {
    pub members: usize,
    pub folder_access_entries: usize,
    pub folder_key_grants: usize,
    pub sync_records: usize,
}

/// A reconciliation's counts after it commits, against their limits.
#[derive(Debug, Clone, Copy, PartialEq, Eq, Structural)]
pub struct ReconciliationCapacity {
    pub members_after: usize,
    pub member_limit: usize,
    pub folder_access_entries_after: usize,
    pub folder_access_entry_limit: usize,
    pub folder_key_grants_after: usize,
    pub folder_key_grant_limit: usize,
    pub sync_records_after: usize,
    pub sync_record_limit: usize,
}

/// `a + b`, held at `usize::MAX`.
pub open spec fn saturating(a: int, b: int) -> int {
    if a + b > usize::MAX {
        usize::MAX as int
    } else {
        a + b
    }
}

/// Number of explicit Folder access entries.
pub open spec fn access_entry_total(es: Seq<FolderAccessEntry>) -> nat
    decreases es.len(),
{
    if es.len() == 0 {
        0
    } else {
        access_entry_total(es.drop_last()) + es.last().user_ids@.len()
    }
}

/// Number of grants the plan still misses, over its Folders.
pub open spec fn missing_total(fs: Seq<ReconciliationFolderPlan>) -> nat
    decreases fs.len(),
{
    if fs.len() == 0 {
        0
    } else {
        missing_total(fs.drop_last()) + fs.last().missing_grant_recipient_npubs@.len()
    }
}

/// A count held at `usize::MAX`.
pub open spec fn capped(n: int) -> int {
    if n > usize::MAX {
        usize::MAX as int
    } else {
        n
    }
}

fn access_entries_total(es: &Vec<FolderAccessEntry>) -> (r: usize)
    ensures
        r == capped(access_entry_total(es@) as int),
{
    let mut total: usize = 0;
    let mut i: usize = 0;
    while i < es.len()
        invariant
            i <= es.len(),
            total == capped(access_entry_total(es@.take(i as int)) as int),
        decreases es.len() - i,
    {
        proof {
            assert(es@.take(i + 1).drop_last() =~= es@.take(i as int));
            assert(es@.take(i + 1).last() == es@[i as int]);
        }
        total = total.saturating_add(es[i].user_ids.len());
        i += 1;
    }
    proof {
        assert(es@.take(es.len() as int) =~= es@);
    }
    total
}

fn missing_grants_total(fs: &Vec<ReconciliationFolderPlan>) -> (r: usize)
    ensures
        r == capped(missing_total(fs@) as int),
{
    let mut total: usize = 0;
    let mut i: usize = 0;
    while i < fs.len()
        invariant
            i <= fs.len(),
            total == capped(missing_total(fs@.take(i as int)) as int),
        decreases fs.len() - i,
    {
        proof {
            assert(fs@.take(i + 1).drop_last() =~= fs@.take(i as int));
            assert(fs@.take(i + 1).last() == fs@[i as int]);
        }
        total = total.saturating_add(fs[i].missing_grant_recipient_npubs.len());
        i += 1;
    }
    proof {
        assert(fs@.take(fs.len() as int) =~= fs@);
    }
    total
}

/// The capacity figures are the Brain's counts after the reconciliation:
/// members plus the member additions, explicit access entries plus the
/// access additions, grants plus the missing grants, and sync records plus
/// one record per missing grant and the access-change record, each held at
/// `usize::MAX` (the sums the store cannot count are held there too).
pub open spec fn capacity_matches(
    c: ReconciliationCapacity,
    stored: StoredBrain,
    member_additions: int,
    access_additions: int,
    folders: Seq<ReconciliationFolderPlan>,
    current_sync: int,
    limits: CapacityLimits,
) -> bool {
    &&& c.members_after == saturating(stored.brain.members.len() as int, member_additions)
    &&& c.member_limit == limits.members
    &&& c.folder_access_entries_after == saturating(capped(access_entry_total(stored.folder_access@) as int), access_additions)
    &&& c.folder_access_entry_limit == limits.folder_access_entries
    &&& c.folder_key_grants_after == saturating(stored.grants.len() as int, capped(missing_total(folders) as int))
    &&& c.folder_key_grant_limit == limits.folder_key_grants
    &&& c.sync_records_after == saturating(saturating(current_sync, capped(missing_total(folders) as int)), 1)
    &&& c.sync_record_limit == limits.sync_records
}

/// The capacity figures of a reconciliation. `current_sync` is the Brain's
/// latest sync sequence.
pub fn reconciliation_capacity(
    stored: &StoredBrain,
    member_additions: usize,
    access_additions: usize,
    folders: &Vec<ReconciliationFolderPlan>,
    current_sync: usize,
    limits: CapacityLimits,
) -> (r: ReconciliationCapacity)
    ensures
        capacity_matches(r, *stored, member_additions as int, access_additions as int, folders@, current_sync as int, limits),
{
    let access = access_entries_total(&stored.folder_access);
    let missing = missing_grants_total(folders);
    ReconciliationCapacity {
        members_after: stored.brain.members.len().saturating_add(member_additions),
        member_limit: limits.members,
        folder_access_entries_after: access.saturating_add(access_additions),
        folder_access_entry_limit: limits.folder_access_entries,
        folder_key_grants_after: stored.grants.len().saturating_add(missing),
        folder_key_grant_limit: limits.folder_key_grants,
        sync_records_after: current_sync.saturating_add(missing).saturating_add(1),
        sync_record_limit: limits.sync_records,
    }
}

/// Some count would exceed its limit.
pub open spec fn over_capacity(c: ReconciliationCapacity) -> bool {
    ||| c.members_after > c.member_limit
    ||| c.folder_access_entries_after > c.folder_access_entry_limit
    ||| c.folder_key_grants_after > c.folder_key_grant_limit
    ||| c.sync_records_after > c.sync_record_limit
}

/// Why a reconciliation cannot commit: the human's cohort is already
/// reconciled for this scope, or a count would exceed its limit.
pub open spec fn blocker_of(already_reconciled: bool, c: ReconciliationCapacity) -> Option<Seq<char>> {
    if already_reconciled {
        Some("already_reconciled"@)
    } else if over_capacity(c) {
        Some("capacity_exceeded"@)
    } else {
        None
    }
}

/// The blocker of a reconciliation plan, if any.
pub fn reconciliation_blocker(already_reconciled: bool, capacity: ReconciliationCapacity) -> (r: Option<String>)
    ensures
        match blocker_of(already_reconciled, capacity) {
            Some(b) => r matches Some(s) && s@ == b,
            None => r is None,
        },
{
    if already_reconciled {
        Some("already_reconciled".to_owned())
    } else if capacity.members_after > capacity.member_limit || capacity.folder_access_entries_after
        > capacity.folder_access_entry_limit || capacity.folder_key_grants_after > capacity.folder_key_grant_limit
        || capacity.sync_records_after > capacity.sync_record_limit {
        Some("capacity_exceeded".to_owned())
    } else {
        None
    }
}

/// The account Agents of the cohort.
pub open spec fn cohort_agent(ps: Seq<CohortParticipant>, u: Seq<char>) -> bool {
    exists|i: int| 0 <= i < ps.len() && is_account_agent(#[trigger] ps[i]) && ps[i].npub@ == u
}

/// The members a Brain-wide reconciliation of an Organization Brain adds:
/// the cohort's account Agents that are not members yet, each once.
pub fn expected_member_additions(stored: &StoredBrain, brain_scope: bool, participants: &Vec<CohortParticipant>) -> (r:
    Vec<String>)
    ensures
        texts_distinct(r@),
        forall|u: Seq<char>| #[trigger] seq_has(r@, u) <==> (stored.brain.kind == BrainKind::Organization && brain_scope
            && cohort_agent(participants@, u) && !is_member(stored.brain, u)),
{
    let mut r: Vec<String> = Vec::new();
    if stored.brain.kind != BrainKind::Organization || !brain_scope {
        return r;
    }
    proof {
        reveal_strlit("account_agent");
    }
    let mut i: usize = 0;
    while i < participants.len()
        invariant
            stored.brain.kind == BrainKind::Organization,
            brain_scope,
            i <= participants.len(),
            texts_distinct(r@),
            forall|u: Seq<char>| #[trigger] seq_has(r@, u) <==> (cohort_agent(participants@.take(i as int), u)
                && !is_member(stored.brain, u)),
        decreases participants.len() - i,
    {
        let p = &participants[i];
        let agent = str_eq(p.relationship.as_str(), "account_agent");
        let member = brain_is_member(&stored.brain, p.npub.as_str());
        let ghost before = r@;
        if agent && !member {
            add_text(&mut r, p.npub.as_str());
        }
        proof {
            let t0 = participants@.take(i as int);
            let t1 = participants@.take(i + 1);
            assert forall|u: Seq<char>| cohort_agent(t1, u) <==> (cohort_agent(t0, u) || (is_account_agent(
                participants@[i as int],
            ) && participants@[i as int].npub@ == u)) by {
                if cohort_agent(t1, u) {
                    let k = choose|k: int| 0 <= k < t1.len() && is_account_agent(#[trigger] t1[k]) && t1[k].npub@ == u;
                    if k < i {
                        assert(t0[k] == t1[k]);
                    }
                }
                if cohort_agent(t0, u) {
                    let k = choose|k: int| 0 <= k < t0.len() && is_account_agent(#[trigger] t0[k]) && t0[k].npub@ == u;
                    assert(t1[k] == t0[k]);
                }
                if is_account_agent(participants@[i as int]) && participants@[i as int].npub@ == u {
                    assert(t1[i as int] == participants@[i as int]);
                }
            }
        }
        i += 1;
    }
    proof {
        assert(participants@.take(i as int) =~= participants@);
    }
    r
}

/// Number of participants, in roster order, without explicit access to
/// the Folder.
pub open spec fn access_additions(stored: StoredBrain, folder_id: Seq<char>, ps: Seq<CohortParticipant>) -> nat
    decreases ps.len(),
{
    if ps.len() == 0 {
        0
    } else {
        access_additions(stored, folder_id, ps.drop_last()) + if has_explicit_access(
            stored,
            folder_id,
            ps.last().npub@,
        ) {
            0nat
        } else {
            1nat
        }
    }
}

/// The explicit access entries a Folder-only reconciliation adds: one per
/// participant without explicit access to the Folder; none for a
/// Brain-wide one.
pub fn folder_access_additions(stored: &StoredBrain, folder_id: Option<&str>, participants: &Vec<CohortParticipant>) -> (r:
    usize)
    ensures
        r == match folder_id {
            Some(f) => access_additions(*stored, f@, participants@),
            None => 0,
        },
{
    let f = match folder_id {
        None => {
            return 0;
        },
        Some(f) => f,
    };
    let mut count: usize = 0;
    let mut i: usize = 0;
    while i < participants.len()
        invariant
            i <= participants.len(),
            count == access_additions(*stored, f@, participants@.take(i as int)),
            count <= i,
        decreases participants.len() - i,
    {
        proof {
            assert(participants@.take(i + 1).drop_last() =~= participants@.take(i as int));
            assert(participants@.take(i + 1).last() == participants@[i as int]);
        }
        if !stored_has_explicit_access(stored, f, participants[i].npub.as_str()) {
            count += 1;
        }
        i += 1;
    }
    proof {
        assert(participants@.take(i as int) =~= participants@);
    }
    count
}

/// The Folders a reconciliation covers, in Brain order: the selected Folder
/// of a Folder-only reconciliation, or every Folder the human reads.
pub open spec fn intended_folders(stored: StoredBrain, fs: Seq<Folder>, scope: ReconciliationScope) -> Seq<Folder>
    decreases fs.len(),
{
    if fs.len() == 0 {
        Seq::empty()
    } else {
        let prev = intended_folders(stored, fs.drop_last(), scope);
        let f = fs.last();
        let covered = match scope.folder_id {
            Some(id) => f.id@ == id@,
            None => folder_visible(stored, f.id@, scope.human_npub@),
        };
        if covered {
            prev.push(f)
        } else {
            prev
        }
    }
}

/// A Folder plan splits the participants by whether they hold a grant for
/// the Folder's current key.
pub open spec fn folder_plan_matches(
    fp: ReconciliationFolderPlan,
    stored: StoredBrain,
    folder: Folder,
    ps: Seq<CohortParticipant>,
) -> bool {
    &&& fp.folder_id@ == folder.id@
    &&& fp.key_version == folder.current_key_version
    &&& forall|u: Seq<char>| #[trigger] seq_has(fp.current_grant_recipient_npubs@, u) <==> (
        crate::bootstrap::has_cohort_participant(ps, u) && holds_current_grant(stored, folder, u))
    &&& forall|u: Seq<char>| #[trigger] seq_has(fp.missing_grant_recipient_npubs@, u) <==> (
        crate::bootstrap::has_cohort_participant(ps, u) && !holds_current_grant(stored, folder, u))
}

/// An account Agent of the cohort that already reads one of the covered
/// Folders on its own: by explicit access or a current grant.
pub open spec fn independent_agent(
    stored: StoredBrain,
    fps: Seq<ReconciliationFolderPlan>,
    ps: Seq<CohortParticipant>,
    u: Seq<char>,
) -> bool {
    &&& cohort_agent(ps, u)
    &&& exists|k: int|
        0 <= k < fps.len() && (has_explicit_access(stored, (#[trigger] fps[k]).folder_id@, u) || seq_has(
            fps[k].current_grant_recipient_npubs@,
            u,
        ))
}

fn independent_agents(stored: &StoredBrain, fps: &Vec<ReconciliationFolderPlan>, ps: &Vec<CohortParticipant>) -> (r:
    Vec<String>)
    ensures
        texts_distinct(r@),
        forall|u: Seq<char>| #[trigger] seq_has(r@, u) <==> independent_agent(*stored, fps@, ps@, u),
{
    proof {
        reveal_strlit("account_agent");
    }
    let mut r: Vec<String> = Vec::new();
    let mut i: usize = 0;
    while i < ps.len()
        invariant
            i <= ps.len(),
            texts_distinct(r@),
            forall|u: Seq<char>| #[trigger] seq_has(r@, u) <==> (cohort_agent(ps@.take(i as int), u)
                && independent_agent(*stored, fps@, ps@, u)),
        decreases ps.len() - i,
    {
        let p = &ps[i];
        let agent = str_eq(p.relationship.as_str(), "account_agent");
        let mut reads = false;
        let mut k: usize = 0;
        while k < fps.len()
            invariant
                k <= fps.len(),
                i < ps.len(),
                p == ps@[i as int],
                reads <==> exists|j: int|
                    0 <= j < k && (has_explicit_access(*stored, (#[trigger] fps@[j]).folder_id@, p.npub@) || seq_has(
                        fps@[j].current_grant_recipient_npubs@,
                        p.npub@,
                    )),
            decreases fps.len() - k,
        {
            let fp = &fps[k];
            if stored_has_explicit_access(stored, fp.folder_id.as_str(), p.npub.as_str()) || texts_contain(
                &fp.current_grant_recipient_npubs,
                p.npub.as_str(),
            ) {
                reads = true;
            }
            k += 1;
        }
        if agent && reads {
            add_text(&mut r, p.npub.as_str());
        }
        proof {
            let t0 = ps@.take(i as int);
            let t1 = ps@.take(i + 1);
            assert forall|u: Seq<char>| cohort_agent(t1, u) <==> (cohort_agent(t0, u) || (is_account_agent(ps@[i as int])
                && ps@[i as int].npub@ == u)) by {
                if cohort_agent(t1, u) {
                    let k = choose|k: int| 0 <= k < t1.len() && is_account_agent(#[trigger] t1[k]) && t1[k].npub@ == u;
                    if k < i {
                        assert(t0[k] == t1[k]);
                    }
                }
                if cohort_agent(t0, u) {
                    let k = choose|k: int| 0 <= k < t0.len() && is_account_agent(#[trigger] t0[k]) && t0[k].npub@ == u;
                    assert(t1[k] == t0[k]);
                }
                if is_account_agent(ps@[i as int]) && ps@[i as int].npub@ == u {
                    assert(t1[i as int] == ps@[i as int]);
                }
            }
            if agent && reads {
                assert(cohort_agent(ps@, p.npub@)) by {
                    assert(is_account_agent(ps@[i as int]));
                }
            }
            assert forall|u: Seq<char>| cohort_agent(t1, u) implies cohort_agent(ps@, u) by {
                let k = choose|k: int| 0 <= k < t1.len() && is_account_agent(#[trigger] t1[k]) && t1[k].npub@ == u;
                assert(ps@[k] == t1[k]);
            }
        }
        i += 1;
    }
    proof {
        assert(ps@.take(i as int) =~= ps@);
    }
    r
}

/// A pending Brain Invitation to the cohort's human, as a reconciliation
/// plan lists it.
#[derive(Debug, Clone, PartialEq, Eq)]
pub struct ReconciliationPendingInvitation {
    pub invitation_id: String,
    pub target_kind: String,
    /// `folder` for a Folder-only invitation, `brain` otherwise.
    pub scope_kind: String,
    /// The first Folder of a Folder-only invitation's scope.
    pub folder_id: Option<String>,
    pub expires_at: String,
    /// An email bootstrap invitation must be converted before it applies.
    pub conversion_required: bool,
}

/// A stored pending Brain Invitation row, as the plan reads it.
#[derive(Debug, Clone, PartialEq, Eq)]
pub struct PendingInvitationRow {
    pub id: String,
    pub target_kind: String,
    pub folder_only: bool,
    /// JSON array of the invitation's initial Folder ids.
    pub initial_folder_access_json: String,
    pub expires_at: String,
}

/// The summary as texts.
pub open spec fn summary_view(s: ReconciliationPendingInvitation) -> (
    Seq<char>,
    Seq<char>,
    Seq<char>,
    Option<Seq<char>>,
    Seq<char>,
    bool,
) {
    (s.invitation_id@, s.target_kind@, s.scope_kind@, opt_view(s.folder_id), s.expires_at@, s.conversion_required)
}

/// The summaries as texts.
pub open spec fn pending_view(ps: Seq<ReconciliationPendingInvitation>) -> Seq<
    (Seq<char>, Seq<char>, Seq<char>, Option<Seq<char>>, Seq<char>, bool),
> {
    ps.map_values(|s: ReconciliationPendingInvitation| summary_view(s))
}

/// The summary of a pending invitation whose stored scope parsed to `ids`:
/// its scope kind follows `folder_only`, a Folder-only invitation names the
/// first Folder of its scope, and an email bootstrap needs conversion.
pub open spec fn summary_of(
    id: Seq<char>,
    target_kind: Seq<char>,
    folder_only: bool,
    ids: Seq<Seq<char>>,
    expires_at: Seq<char>,
) -> (Seq<char>, Seq<char>, Seq<char>, Option<Seq<char>>, Seq<char>, bool) {
    (
        id,
        target_kind,
        if folder_only { "folder"@ } else { "brain"@ },
        if folder_only && ids.len() > 0 { Some(ids[0]) } else { None },
        expires_at,
        target_kind == "email_bootstrap"@,
    )
}

/// Summarise one pending Brain Invitation for a reconciliation plan. Its
/// stored scope must be a JSON array of Folder ids; one that is not fails
/// as a database error carrying the parser's message.
pub fn pending_invitation_summary(
    id: &str,
    target_kind: &str,
    folder_only: bool,
    initial_folder_access_json: &str,
    expires_at: &str,
) -> (r: Result<ReconciliationPendingInvitation, StoreError>)
    ensures
        match json_string_list(initial_folder_access_json@) {
            Ok(ids) => r matches Ok(s) && summary_view(s) == summary_of(id@, target_kind@, folder_only, ids, expires_at@),
            Err(m) => r matches Err(e) && is_database(e, m),
        },
{
    let folders = match stored_folder_ids(initial_folder_access_json) {
        Ok(ids) => ids,
        Err(e) => {
            return Err(e);
        },
    };
    proof {
        reveal_strlit("folder");
        reveal_strlit("brain");
        reveal_strlit("email_bootstrap");
    }
    let scope_kind = if folder_only { "folder".to_owned() } else { "brain".to_owned() };
    let folder_id = if folder_only && folders.len() > 0 { Some(folders[0].clone()) } else { None };
    Ok(
        ReconciliationPendingInvitation {
            invitation_id: id.to_owned(),
            target_kind: target_kind.to_owned(),
            scope_kind,
            folder_id,
            expires_at: expires_at.to_owned(),
            conversion_required: str_eq(target_kind, "email_bootstrap"),
        },
    )
}

/// The summary of one stored row, or its scope's parse error message.
pub open spec fn row_summary(row: PendingInvitationRow) -> Result<(Seq<char>, Seq<char>, Seq<char>, Option<Seq<char>>, Seq<char>, bool), Seq<char>> {
    match json_string_list(row.initial_folder_access_json@) {
        Ok(ids) => Ok(summary_of(row.id@, row.target_kind@, row.folder_only, ids, row.expires_at@)),
        Err(m) => Err(m),
    }
}

/// The summaries of the rows in order, or the message of the first row
/// whose scope does not parse.
pub open spec fn summaries_of(rows: Seq<PendingInvitationRow>) -> Result<Seq<(Seq<char>, Seq<char>, Seq<char>, Option<Seq<char>>, Seq<char>, bool)>, Seq<char>>
    decreases rows.len(),
{
    if rows.len() == 0 {
        Ok(Seq::empty())
    } else {
        match summaries_of(rows.drop_last()) {
            Err(m) => Err(m),
            Ok(ts) => match row_summary(rows.last()) {
                Err(m) => Err(m),
                Ok(t) => Ok(ts.push(t)),
            },
        }
    }
}

/// Summarise the pending Brain Invitations of a reconciliation, in order; the
/// first row whose stored scope does not parse fails the whole list.
pub fn pending_invitation_summaries(rows: &Vec<PendingInvitationRow>) -> (r: Result<
    Vec<ReconciliationPendingInvitation>,
    StoreError,
>)
    ensures
        match summaries_of(rows@) {
            Ok(ts) => r matches Ok(v) && pending_view(v@) == ts,
            Err(m) => r matches Err(e) && is_database(e, m),
        },
{
    let mut out: Vec<ReconciliationPendingInvitation> = Vec::new();
    let mut i: usize = 0;
    proof {
        assert(rows@.take(0).len() == 0);
        assert(pending_view(out@) =~= Seq::empty());
    }
    while i < rows.len()
        invariant
            i <= rows.len(),
            summaries_of(rows@.take(i as int)) == Ok::<Seq<(Seq<char>, Seq<char>, Seq<char>, Option<Seq<char>>, Seq<char>, bool)>, Seq<char>>(pending_view(out@)),
        decreases rows.len() - i,
    {
        let row = &rows[i];
        proof {
            assert(rows@.take(i + 1).drop_last() =~= rows@.take(i as int));
            assert(rows@.take(i + 1).last() == rows@[i as int]);
        }
        let s = match pending_invitation_summary(
            row.id.as_str(),
            row.target_kind.as_str(),
            row.folder_only,
            row.initial_folder_access_json.as_str(),
            row.expires_at.as_str(),
        ) {
            Ok(s) => s,
            Err(e) => {
                proof {
                    lemma_summaries_fail_from(rows@, i as int);
                }
                return Err(e);
            },
        };
        let ghost before = out@;
        out.push(s);
        proof {
            assert(pending_view(out@) =~= pending_view(before).push(summary_view(s)));
        }
        i += 1;
    }
    proof {
        assert(rows@.take(rows.len() as int) =~= rows@);
    }
    Ok(out)
}

/// Once a prefix fails, every longer prefix fails with the same message.
proof fn lemma_summaries_fail_from(rows: Seq<PendingInvitationRow>, i: int)
    requires
        0 <= i < rows.len(),
        summaries_of(rows.take(i)) is Ok,
        row_summary(rows[i]) is Err,
    ensures
        summaries_of(rows) == Err::<Seq<(Seq<char>, Seq<char>, Seq<char>, Option<Seq<char>>, Seq<char>, bool)>, Seq<char>>(row_summary(rows[i])->Err_0),
    decreases rows.len() - i,
{
    if i == rows.len() - 1 {
        assert(rows.drop_last() =~= rows.take(i));
    } else {
        assert(rows.drop_last().take(i) =~= rows.take(i));
        assert(rows.drop_last()[i] == rows[i]);
        lemma_summaries_fail_from(rows.drop_last(), i);
    }
}

/// A reviewed or freshly computed cohort reconciliation plan.
#[derive(Debug, Clone, PartialEq, Eq)]
pub struct ReconciliationPlan {
    pub operation_id: String,
    pub brain_id: String,
    pub account_id: String,
    pub human_npub: String,
    /// The cohort's human email, trimmed and in ASCII lower case.
    pub human_email: String,
    /// The Folder of a Folder-only reconciliation; none for the whole Brain.
    pub folder_id: Option<String>,
    pub roster_revision: u64,
    pub participants: Vec<CohortParticipant>,
    pub folders: Vec<ReconciliationFolderPlan>,
    pub expected_member_additions: Vec<String>,
    pub independent_agent_npubs: Vec<String>,
    pub capacity: ReconciliationCapacity,
    pub blocker: Option<String>,
    /// Pending Brain Invitations to the cohort's human, by invitation id.
    pub pending_invitations: Vec<ReconciliationPendingInvitation>,
}

/// An optional text as a text.
pub open spec fn opt_view(o: Option<String>) -> Option<Seq<char>> {
    match o {
        Some(s) => Some(s@),
        None => None,
    }
}

/// The plan built for the Brain, cohort and scope.
pub open spec fn plan_built(
    p: ReconciliationPlan,
    stored: StoredBrain,
    cohort: BootstrapAccountCohort,
    scope: ReconciliationScope,
    already_reconciled: bool,
    current_sync: int,
    limits: CapacityLimits,
    pending: Seq<(Seq<char>, Seq<char>, Seq<char>, Option<Seq<char>>, Seq<char>, bool)>,
) -> bool {
    let intended = intended_folders(stored, stored.brain.folders@, scope);
    let brain_scope = scope.folder_id is None;
    &&& p.operation_id@ == Seq::<char>::empty()
    &&& p.brain_id@ == stored.brain.id@
    &&& p.account_id@ == cohort.account_id@
    &&& p.human_npub@ == scope.human_npub@
    &&& p.human_email@ == ascii_lowered(trimmed(cohort.human_email@))
    &&& opt_view(p.folder_id) == opt_view(scope.folder_id)
    &&& p.roster_revision == cohort.roster_revision
    &&& p.participants@ == cohort.participants@
    &&& p.folders@.len() == intended.len()
    &&& forall|k: int|
        0 <= k < intended.len() ==> folder_plan_matches(
            #[trigger] p.folders@[k],
            stored,
            intended[k],
            cohort.participants@,
        )
    &&& texts_distinct(p.expected_member_additions@)
    &&& forall|u: Seq<char>| #[trigger] seq_has(p.expected_member_additions@, u) <==> (stored.brain.kind
        == BrainKind::Organization && brain_scope && cohort_agent(cohort.participants@, u) && !is_member(
        stored.brain,
        u,
    ))
    &&& texts_distinct(p.independent_agent_npubs@)
    &&& forall|u: Seq<char>| #[trigger] seq_has(p.independent_agent_npubs@, u) <==> independent_agent(
        stored,
        p.folders@,
        cohort.participants@,
        u,
    )
    &&& capacity_matches(
        p.capacity,
        stored,
        p.expected_member_additions@.len() as int,
        match scope.folder_id {
            Some(f) => access_additions(stored, f@, cohort.participants@) as int,
            None => 0,
        },
        p.folders@,
        current_sync,
        limits,
    )
    &&& opt_view(p.blocker) == blocker_of(already_reconciled, p.capacity)
    &&& pending_view(p.pending_invitations@) == pending
}

fn copy_participants(ps: &Vec<CohortParticipant>) -> (r: Vec<CohortParticipant>)
    ensures
        r@ == ps@,
{
    let mut r: Vec<CohortParticipant> = Vec::new();
    let mut i: usize = 0;
    while i < ps.len()
        invariant
            i <= ps.len(),
            r@ == ps@.take(i as int),
        decreases ps.len() - i,
    {
        r.push(crate::admissions::copy_participant(&ps[i]));
        proof {
            assert(ps@.take(i + 1) =~= ps@.take(i as int).push(ps@[i as int]));
        }
        i += 1;
    }
    proof {
        assert(ps@.take(ps.len() as int) =~= ps@);
    }
    r
}

/// Plan a cohort reconciliation for a decided scope (see
/// `reconciliation_scope`). `already_reconciled` tells whether an active
/// cohort already covers the human for this scope; `current_sync` is the
/// Brain's latest sync sequence; `pending_invitations` are the summaries of
/// the human's pending Brain Invitations (see `pending_invitation_summaries`).
pub fn build_reconciliation_plan(
    stored: &StoredBrain,
    cohort: &BootstrapAccountCohort,
    scope: &ReconciliationScope,
    already_reconciled: bool,
    current_sync: usize,
    limits: CapacityLimits,
    pending_invitations: Vec<ReconciliationPendingInvitation>,
) -> (r: ReconciliationPlan)
    ensures
        plan_built(
            r,
            *stored,
            *cohort,
            *scope,
            already_reconciled,
            current_sync as int,
            limits,
            pending_view(pending_invitations@),
        ),
{
    let fs = &stored.brain.folders;
    let mut folders: Vec<ReconciliationFolderPlan> = Vec::new();
    let ghost intended: Seq<Folder> = Seq::empty();
    let mut i: usize = 0;
    while i < fs.len()
        invariant
            i <= fs.len(),
            fs == stored.brain.folders,
            intended == intended_folders(*stored, fs@.take(i as int), *scope),
            folders@.len() == intended.len(),
            forall|k: int|
                0 <= k < intended.len() ==> folder_plan_matches(
                    #[trigger] folders@[k],
                    *stored,
                    intended[k],
                    cohort.participants@,
                ),
        decreases fs.len() - i,
    {
        let f = &fs[i];
        proof {
            assert(fs@.take(i + 1).drop_last() =~= fs@.take(i as int));
            assert(fs@.take(i + 1).last() == fs@[i as int]);
        }
        let covered = match &scope.folder_id {
            Some(id) => str_eq(f.id.as_str(), id.as_str()),
            None => folder_visible_to_actor(stored, f.id.as_str(), scope.human_npub.as_str()),
        };
        if covered {
            let fp = reconciliation_folder(stored, f, &cohort.participants);
            folders.push(fp);
            proof {
                intended = intended.push(fs@[i as int]);
            }
        }
        i += 1;
    }
    proof {
        assert(fs@.take(fs.len() as int) =~= fs@);
    }
    let brain_scope = scope.folder_id.is_none();
    let additions = expected_member_additions(stored, brain_scope, &cohort.participants);
    let access_adds = match &scope.folder_id {
        Some(f) => folder_access_additions(stored, Some(f.as_str()), &cohort.participants),
        None => folder_access_additions(stored, None, &cohort.participants),
    };
    let independent = independent_agents(stored, &folders, &cohort.participants);
    let capacity = reconciliation_capacity(stored, additions.len(), access_adds, &folders, current_sync, limits);
    let blocker = reconciliation_blocker(already_reconciled, capacity);
    ReconciliationPlan {
        operation_id: String::new(),
        brain_id: stored.brain.id.clone(),
        account_id: cohort.account_id.clone(),
        human_npub: scope.human_npub.clone(),
        human_email: to_ascii_lowercase(trim_text(cohort.human_email.as_str())),
        folder_id: match &scope.folder_id {
            Some(f) => Some(f.clone()),
            None => None,
        },
        roster_revision: cohort.roster_revision,
        participants: copy_participants(&cohort.participants),
        folders,
        expected_member_additions: additions,
        independent_agent_npubs: independent,
        capacity,
        blocker,
        pending_invitations,
    }
}

/// The invited email a cohort's pending Brain Invitations are stored under:
/// the human email, trimmed and in ASCII lower case.
pub fn cohort_invited_email(cohort: &BootstrapAccountCohort) -> (r: String)
    ensures
        r@ == ascii_lowered(trimmed(cohort.human_email@)),
{
    to_ascii_lowercase(trim_text(cohort.human_email.as_str()))
}

/// Plan a cohort reconciliation with the human's pending Brain Invitations
/// read from their stored rows: a row whose stored scope does not parse
/// fails the plan; otherwise the plan is built as `build_reconciliation_plan`
/// builds it, listing the rows' summaries in order.
pub fn plan_cohort_reconciliation(
    stored: &StoredBrain,
    cohort: &BootstrapAccountCohort,
    scope: &ReconciliationScope,
    already_reconciled: bool,
    current_sync: usize,
    limits: CapacityLimits,
    pending_rows: &Vec<PendingInvitationRow>,
) -> (r: Result<ReconciliationPlan, StoreError>)
    ensures
        match summaries_of(pending_rows@) {
            Ok(ts) => r matches Ok(p) && plan_built(
                p,
                *stored,
                *cohort,
                *scope,
                already_reconciled,
                current_sync as int,
                limits,
                ts,
            ),
            Err(m) => r matches Err(e) && is_database(e, m),
        },
{
    let pending = match pending_invitation_summaries(pending_rows) {
        Ok(v) => v,
        Err(e) => {
            return Err(e);
        },
    };
    Ok(build_reconciliation_plan(stored, cohort, scope, already_reconciled, current_sync, limits, pending))
}

/// The participants as texts.
pub open spec fn participants_view(ps: Seq<CohortParticipant>) -> Seq<(Seq<char>, Seq<char>, Seq<char>, Seq<char>)> {
    ps.map_values(|p: CohortParticipant| (p.npub@, p.relationship@, p.nip05@, p.name@))
}

/// The Folder plans as texts.
pub open spec fn folder_plans_view(fs: Seq<ReconciliationFolderPlan>) -> Seq<
    (Seq<char>, u32, Seq<Seq<char>>, Seq<Seq<char>>),
> {
    fs.map_values(
        |f: ReconciliationFolderPlan|
            (
                f.folder_id@,
                f.key_version,
                texts_view(f.current_grant_recipient_npubs@),
                texts_view(f.missing_grant_recipient_npubs@),
            ),
    )
}

/// Two plans agree in everything but their operation id.
pub open spec fn same_review(a: ReconciliationPlan, b: ReconciliationPlan) -> bool {
    &&& a.brain_id@ == b.brain_id@
    &&& a.account_id@ == b.account_id@
    &&& a.human_npub@ == b.human_npub@
    &&& a.human_email@ == b.human_email@
    &&& opt_view(a.folder_id) == opt_view(b.folder_id)
    &&& a.roster_revision == b.roster_revision
    &&& participants_view(a.participants@) == participants_view(b.participants@)
    &&& folder_plans_view(a.folders@) == folder_plans_view(b.folders@)
    &&& texts_view(a.expected_member_additions@) == texts_view(b.expected_member_additions@)
    &&& texts_view(a.independent_agent_npubs@) == texts_view(b.independent_agent_npubs@)
    &&& a.capacity == b.capacity
    &&& opt_view(a.blocker) == opt_view(b.blocker)
    &&& pending_view(a.pending_invitations@) == pending_view(b.pending_invitations@)
}

/// A reviewed plan may commit: a fresh plan for the same Brain, cohort and
/// scope equals it, and it carries no blocker.
pub open spec fn review_is_current(fresh: ReconciliationPlan, reviewed: ReconciliationPlan) -> bool {
    same_review(fresh, reviewed) && reviewed.blocker is None
}

fn texts_equal(a: &Vec<String>, b: &Vec<String>) -> (r: bool)
    ensures
        r == (texts_view(a@) == texts_view(b@)),
{
    if a.len() != b.len() {
        proof {
            assert(texts_view(a@).len() != texts_view(b@).len());
        }
        return false;
    }
    let mut i: usize = 0;
    while i < a.len()
        invariant
            i <= a.len(),
            a.len() == b.len(),
            forall|k: int| 0 <= k < i ==> (#[trigger] a@[k])@ == b@[k]@,
        decreases a.len() - i,
    {
        if !str_eq(a[i].as_str(), b[i].as_str()) {
            proof {
                assert(texts_view(a@)[i as int] != texts_view(b@)[i as int]);
            }
            return false;
        }
        i += 1;
    }
    proof {
        assert(texts_view(a@) =~= texts_view(b@));
    }
    true
}

fn opt_text_equal(a: &Option<String>, b: &Option<String>) -> (r: bool)
    ensures
        r == (opt_view(*a) == opt_view(*b)),
{
    match (a, b) {
        (Some(x), Some(y)) => str_eq(x.as_str(), y.as_str()),
        (None, None) => true,
        _ => false,
    }
}

fn participants_equal(a: &Vec<CohortParticipant>, b: &Vec<CohortParticipant>) -> (r: bool)
    ensures
        r == (participants_view(a@) == participants_view(b@)),
{
    if a.len() != b.len() {
        proof {
            assert(participants_view(a@).len() != participants_view(b@).len());
        }
        return false;
    }
    let mut i: usize = 0;
    while i < a.len()
        invariant
            i <= a.len(),
            a.len() == b.len(),
            forall|k: int| 0 <= k < i ==> participants_view(a@)[k] == participants_view(b@)[k],
        decreases a.len() - i,
    {
        let x = &a[i];
        let y = &b[i];
        if !(str_eq(x.npub.as_str(), y.npub.as_str()) && str_eq(x.relationship.as_str(), y.relationship.as_str())
            && str_eq(x.nip05.as_str(), y.nip05.as_str()) && str_eq(x.name.as_str(), y.name.as_str())) {
            proof {
                assert(participants_view(a@)[i as int] != participants_view(b@)[i as int]);
            }
            return false;
        }
        i += 1;
    }
    proof {
        assert(participants_view(a@) =~= participants_view(b@));
    }
    true
}

fn folder_plans_equal(a: &Vec<ReconciliationFolderPlan>, b: &Vec<ReconciliationFolderPlan>) -> (r: bool)
    ensures
        r == (folder_plans_view(a@) == folder_plans_view(b@)),
{
    if a.len() != b.len() {
        proof {
            assert(folder_plans_view(a@).len() != folder_plans_view(b@).len());
        }
        return false;
    }
    let mut i: usize = 0;
    while i < a.len()
        invariant
            i <= a.len(),
            a.len() == b.len(),
            forall|k: int| 0 <= k < i ==> folder_plans_view(a@)[k] == folder_plans_view(b@)[k],
        decreases a.len() - i,
    {
        let x = &a[i];
        let y = &b[i];
        if !(str_eq(x.folder_id.as_str(), y.folder_id.as_str()) && x.key_version == y.key_version && texts_equal(
            &x.current_grant_recipient_npubs,
            &y.current_grant_recipient_npubs,
        ) && texts_equal(&x.missing_grant_recipient_npubs, &y.missing_grant_recipient_npubs)) {
            proof {
                assert(folder_plans_view(a@)[i as int] != folder_plans_view(b@)[i as int]);
            }
            return false;
        }
        i += 1;
    }
    proof {
        assert(folder_plans_view(a@) =~= folder_plans_view(b@));
    }
    true
}

fn pending_equal(a: &Vec<ReconciliationPendingInvitation>, b: &Vec<ReconciliationPendingInvitation>) -> (r: bool)
    ensures
        r == (pending_view(a@) == pending_view(b@)),
{
    if a.len() != b.len() {
        proof {
            assert(pending_view(a@).len() != pending_view(b@).len());
        }
        return false;
    }
    let mut i: usize = 0;
    while i < a.len()
        invariant
            i <= a.len(),
            a.len() == b.len(),
            forall|k: int| 0 <= k < i ==> pending_view(a@)[k] == pending_view(b@)[k],
        decreases a.len() - i,
    {
        let x = &a[i];
        let y = &b[i];
        if !(str_eq(x.invitation_id.as_str(), y.invitation_id.as_str()) && str_eq(
            x.target_kind.as_str(),
            y.target_kind.as_str(),
        ) && str_eq(x.scope_kind.as_str(), y.scope_kind.as_str()) && opt_text_equal(&x.folder_id, &y.folder_id)
            && str_eq(x.expires_at.as_str(), y.expires_at.as_str()) && x.conversion_required
            == y.conversion_required) {
            proof {
                assert(pending_view(a@)[i as int] != pending_view(b@)[i as int]);
            }
            return false;
        }
        i += 1;
    }
    proof {
        assert(pending_view(a@) =~= pending_view(b@));
    }
    true
}

/// Whether a reviewed plan may still commit, against a fresh plan for the
/// same Brain, cohort and scope.
pub fn reconciliation_review_current(fresh: &ReconciliationPlan, reviewed: &ReconciliationPlan) -> (r: bool)
    ensures
        r == review_is_current(*fresh, *reviewed),
{
    str_eq(fresh.brain_id.as_str(), reviewed.brain_id.as_str()) && str_eq(
        fresh.account_id.as_str(),
        reviewed.account_id.as_str(),
    ) && str_eq(fresh.human_npub.as_str(), reviewed.human_npub.as_str()) && str_eq(
        fresh.human_email.as_str(),
        reviewed.human_email.as_str(),
    ) && opt_text_equal(&fresh.folder_id, &reviewed.folder_id) && fresh.roster_revision == reviewed.roster_revision
        && participants_equal(&fresh.participants, &reviewed.participants) && folder_plans_equal(
        &fresh.folders,
        &reviewed.folders,
    ) && texts_equal(&fresh.expected_member_additions, &reviewed.expected_member_additions) && texts_equal(
        &fresh.independent_agent_npubs,
        &reviewed.independent_agent_npubs,
    ) && fresh.capacity == reviewed.capacity && opt_text_equal(&fresh.blocker, &reviewed.blocker)
        && pending_equal(&fresh.pending_invitations, &reviewed.pending_invitations) && reviewed.blocker.is_none()
}

/// Check the commit of a reviewed reconciliation against a fresh plan: a
/// plan that is stale (the fresh plan differs from it) or blocked is
/// refused, and the rest is checked as `check_reconciliation_commit` does
/// with the reviewed Folders.
pub fn check_reviewed_reconciliation_commit(
    stored: &StoredBrain,
    reviewed: &ReconciliationPlan,
    fresh: &ReconciliationPlan,
    backup_reference: &str,
    already_committed: bool,
    actor: &str,
    grants: &Vec<FolderKeyGrantMetadata>,
    control_records: &Vec<SyncRecordInput>,
) -> (r: Result<ReconciliationCommitStep, StoreError>)
    ensures
        reconciliation_commit_outcome(
            r,
            *stored,
            reviewed.operation_id@,
            backup_reference@,
            already_committed,
            review_is_current(*fresh, *reviewed),
            reviewed.folders@,
            actor@,
            grants@,
            control_records@,
        ),
{
    let current = reconciliation_review_current(fresh, reviewed);
    check_reconciliation_commit(
        stored,
        reviewed.operation_id.as_str(),
        backup_reference,
        already_committed,
        current,
        &reviewed.folders,
        actor,
        grants,
        control_records,
    )
}

} // verus!
