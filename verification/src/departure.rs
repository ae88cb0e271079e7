//! Permanent Departure Facts: which facts apply, what each one revokes in a
//! Brain, the pending Folder re-wraps it leaves behind, and the ledger ids it
//! writes.
use vstd::prelude::*;

use crate::error::{broken, is_broken, is_missing_folder, StoreError};
use crate::kinds::{DeparturePrincipalKind, ProvenanceOriginKind};
use crate::member_removal::targets_view;
use crate::membership::{removal_targets, StoredSharedFolderConnection};
use crate::model::{find_folder, folder_with_id, seq_has, texts_contain, texts_distinct, Folder, StoredBrain};
use crate::text::{
    append_signed_decimal, ascii_lowered, is_blank, signed_decimal, str_eq, text_is_blank,
    to_ascii_lowercase, trim_text, trimmed,
};

verus! {

/// One Core Permanent Departure Fact the server resolved for local
/// application. `departed_npub` is `None` when no authority or local alias
/// could bind the principal; the fact is then consumed with no local effect.
#[derive(Debug, Clone, PartialEq, Eq)]
pub struct DepartureFactApplication {
    /// Global monotonic departure log revision.
    pub fact_revision: i64,
    /// Owning account id.
    pub account_id: String,
    /// Principal classification.
    pub principal_kind: DeparturePrincipalKind,
    /// Stable external principal reference (Managed Agent Email or human mailbox).
    pub principal_ref: String,
    /// Locally resolved Principal npub, when bound.
    pub departed_npub: Option<String>,
    /// Application timestamp.
    pub applied_at: String,
}

/// The authority reference recorded on revocation ledger rows.
pub open spec fn departure_origin_ref(revision: int) -> Seq<char> {
    "core-departure-fact:"@ + signed_decimal(revision)
}

impl DepartureFactApplication {
    /// Deterministic authority reference recorded on revocation ledger rows
    /// (`core-departure-fact:{revision}`).
    pub fn origin_ref(&self) -> (r: String)
        ensures
            r@ == departure_origin_ref(self.fact_revision as int),
    {
        let mut r = "core-departure-fact:".to_owned();
        append_signed_decimal(&mut r, self.fact_revision);
        r
    }
}

/// Stable ledger id of the revocation a fact writes for one Brain.
pub open spec fn revocation_ledger_id(revision: int, brain_id: Seq<char>) -> Seq<char> {
    "departure-"@ + signed_decimal(revision) + "-"@ + brain_id
}

/// Stable ledger id (`departure-{revision}-{brain_id}`).
pub fn revocation_id(fact_revision: i64, brain_id: &str) -> (r: String)
    ensures
        r@ == revocation_ledger_id(fact_revision as int, brain_id@),
{
    let mut r = "departure-".to_owned();
    append_signed_decimal(&mut r, fact_revision);
    r.append("-");
    r.append(brain_id);
    r
}

/// Result of applying one departure fact.
#[derive(Debug, Clone, PartialEq, Eq)]
pub struct DepartureFactOutcome {
    /// False when the fact was already covered by the cursor (idempotent replay).
    pub applied: bool,
    /// Brains whose authorization state changed, including Mount source Brains.
    pub affected_brain_ids: Vec<String>,
    /// Revocation ledger rows written.
    pub revocations: usize,
}

/// Stored revocation ledger row. The departure fact is the authority record.
#[derive(Debug, Clone, PartialEq, Eq)]
pub struct DepartureRevocationRecord {
    pub id: String,
    pub brain_id: String,
    pub departed_npub: Option<String>,
    pub principal_kind: DeparturePrincipalKind,
    pub principal_ref: String,
    pub account_id: String,
    pub fact_revision: i64,
    pub origin_kind: ProvenanceOriginKind,
    pub origin_ref: String,
    pub applied_at: String,
}

/// One Folder still needing a client-driven re-wrap after a departure.
#[derive(Debug, Clone, PartialEq, Eq)]
pub struct DeparturePendingRotation {
    /// Brain holding the Folder.
    pub brain_id: String,
    /// Folder id.
    pub folder_id: String,
    /// Departure log revision that marked the Folder.
    pub marked_at_revision: i64,
    /// Folder Key version that was current when marked; rotation must leave it.
    pub key_version: u32,
}

/// What to do with a departure fact: a fact at or below the cursor was
/// already applied and is a no-op; a fact needs a positive revision and a
/// non-blank principal reference.
pub open spec fn departure_fact_decision(r: Result<bool, StoreError>, a: DepartureFactApplication, cursor: i64) -> bool {
    if a.fact_revision <= 0 {
        r matches Err(e) && is_broken(e, "departure fact revision must be positive"@)
    } else if is_blank(a.principal_ref@) {
        r matches Err(e) && is_broken(e, "departure fact principal reference is required"@)
    } else {
        r == Ok::<bool, StoreError>(cursor < a.fact_revision)
    }
}

/// Decide whether a departure fact applies: `Ok(true)` to apply it,
/// `Ok(false)` when the cursor already covers it.
pub fn check_departure_fact(application: &DepartureFactApplication, cursor: i64) -> (r: Result<bool, StoreError>)
    ensures
        departure_fact_decision(r, *application, cursor),
{
    if application.fact_revision <= 0 {
        return Err(broken("departure fact revision must be positive"));
    }
    if text_is_blank(application.principal_ref.as_str()) {
        return Err(broken("departure fact principal reference is required"));
    }
    Ok(cursor < application.fact_revision)
}

/// The departure cursor after a fact is applied or found covered: the
/// larger of the cursor and the fact's revision.
pub open spec fn cursor_after(cursor: i64, fact_revision: i64) -> i64 {
    if cursor < fact_revision {
        fact_revision
    } else {
        cursor
    }
}

/// The departure cursor once a fact went through: it never moves back.
pub fn next_departure_cursor(cursor: i64, fact_revision: i64) -> (r: i64)
    ensures
        r == cursor_after(cursor, fact_revision),
{
    if cursor < fact_revision {
        fact_revision
    } else {
        cursor
    }
}

/// The outcome of a fact the cursor already covers: nothing applied.
pub fn departure_noop() -> (r: DepartureFactOutcome)
    ensures
        !r.applied,
        r.affected_brain_ids@.len() == 0,
        r.revocations == 0,
{
    DepartureFactOutcome { applied: false, affected_brain_ids: Vec::new(), revocations: 0 }
}

/// How many of the ledger inserts took effect.
pub open spec fn count_written(inserted: Seq<bool>) -> nat
    decreases inserted.len(),
{
    if inserted.len() == 0 {
        0
    } else {
        count_written(inserted.drop_last()) + if inserted.last() { 1nat } else { 0nat }
    }
}

/// The outcome of applying a fact past the cursor: it is applied, it
/// affects every Brain the plans touch (see `departure_affected_brains`),
/// and it counts the revocation ledger rows that were written,
/// `inserted[i]` telling whether the row of `plans[i]` was new.
pub fn applied_departure_outcome(plans: &Vec<DepartureRevocationPlan>, inserted: &Vec<bool>) -> (r: DepartureFactOutcome)
    requires
        inserted.len() == plans.len(),
    ensures
        r.applied,
        texts_distinct(r.affected_brain_ids@),
        forall|b: Seq<char>| #[trigger] seq_has(r.affected_brain_ids@, b) <==> departure_affects(plans@, b),
        r.revocations == count_written(inserted@),
{
    let mut revocations: usize = 0;
    let mut i: usize = 0;
    while i < inserted.len()
        invariant
            i <= inserted.len(),
            inserted.len() == plans.len(),
            revocations == count_written(inserted@.take(i as int)),
            revocations <= i,
        decreases inserted.len() - i,
    {
        proof {
            assert(inserted@.take(i + 1).drop_last() =~= inserted@.take(i as int));
        }
        if inserted[i] {
            revocations += 1;
        }
        i += 1;
    }
    proof {
        assert(inserted@.take(inserted.len() as int) =~= inserted@);
    }
    DepartureFactOutcome { applied: true, affected_brain_ids: departure_affected_brains(plans), revocations }
}

/// The invited email a departure revokes pending invitations for: the
/// principal reference, trimmed and in ASCII lower case.
pub fn departed_invitation_email(application: &DepartureFactApplication) -> (r: String)
    ensures
        r@ == ascii_lowered(trimmed(application.principal_ref@)),
{
    to_ascii_lowercase(trim_text(application.principal_ref.as_str()))
}

/// One active destination Mount the departed principal participates in,
/// with the Folders of its source Brain.
#[derive(Debug, Clone, PartialEq, Eq)]
pub struct DepartureMountInput {
    pub connection: StoredSharedFolderConnection,
    pub source_folders: Vec<Folder>,
}

/// What a departure removes from one Mount.
#[derive(Debug, Clone, PartialEq, Eq)]
pub struct DepartureMountRemoval {
    pub connection_id: String,
    pub member_npub: String,
    /// The departed principal controlled the Mount: it is revoked.
    pub revoke_mount: bool,
    /// Participants whose Mount-managed source access goes.
    pub managed_access_removed: Vec<String>,
    pub source_brain_id: String,
    pub source_folder_id: String,
    /// The source Folder's key version to mark for re-wrap, when managed
    /// access goes.
    pub source_pending_key_version: Option<u32>,
}

/// Everything one departure fact revokes in one Brain.
#[derive(Debug, Clone, PartialEq, Eq)]
pub struct DepartureRevocationPlan {
    pub brain_id: String,
    /// Folders the departed principal was a required recipient of, with
    /// their current key versions.
    pub pending_rotation_folders: Vec<(String, u32)>,
    pub mount_removals: Vec<DepartureMountRemoval>,
}

/// The Folders of which the departed principal is a required recipient,
/// with their key versions, in Brain order.
pub open spec fn pending_folders(fs: Seq<Folder>, required: Seq<Vec<String>>, departed: Seq<char>) -> Seq<(Seq<char>, u32)>
    decreases fs.len(),
{
    if fs.len() == 0 {
        Seq::empty()
    } else {
        let prev = pending_folders(fs.drop_last(), required, departed);
        if seq_has(required[fs.len() - 1]@, departed) {
            prev.push((fs.last().id@, fs.last().current_key_version))
        } else {
            prev
        }
    }
}

/// The removal a departure makes from one Mount.
pub open spec fn mount_removal_matches(m: DepartureMountRemoval, input: DepartureMountInput, departed: Seq<char>) -> bool {
    let c = input.connection;
    let targets = targets_view(c, departed);
    &&& m.connection_id@ == c.id@
    &&& m.member_npub@ == departed
    &&& m.revoke_mount == (c.destination_admin_npub@ == departed)
    &&& m.managed_access_removed@.map_values(|s: String| s@) == targets
    &&& m.source_brain_id@ == c.source_brain_id@
    &&& m.source_folder_id@ == c.source_folder_id@
    &&& m.source_pending_key_version == (if targets.len() == 0 {
        None
    } else {
        Some(folder_with_id(input.source_folders@, c.source_folder_id@)->0.current_key_version)
    })
}

/// A Mount whose managed access goes but whose source Folder is gone.
pub open spec fn mount_source_missing(input: DepartureMountInput, departed: Seq<char>) -> bool {
    targets_view(input.connection, departed).len() > 0 && folder_with_id(
        input.source_folders@,
        input.connection.source_folder_id@,
    ) is None
}

fn plan_mount_removal(input: &DepartureMountInput, departed: &str) -> (r: Result<DepartureMountRemoval, StoreError>)
    ensures
        match r {
            Ok(m) => !mount_source_missing(*input, departed@) && mount_removal_matches(m, *input, departed@),
            Err(e) => mount_source_missing(*input, departed@) && is_missing_folder(
                e,
                input.connection.source_folder_id@,
            ),
        },
{
    let c = &input.connection;
    let revoke_mount = str_eq(c.destination_admin_npub.as_str(), departed);
    let targets = removal_targets(c, departed);
    proof {
        assert(targets@.map_values(|s: String| s@) =~= targets_view(*c, departed@));
    }
    let source_pending_key_version = if targets.len() == 0 {
        None
    } else {
        match find_folder(&input.source_folders, c.source_folder_id.as_str()) {
            None => {
                return Err(StoreError::MissingFolder { folder_id: c.source_folder_id.clone() });
            },
            Some(i) => Some(input.source_folders[i].current_key_version),
        }
    };
    let managed = targets;
    Ok(
        DepartureMountRemoval {
            connection_id: c.id.clone(),
            member_npub: departed.to_owned(),
            revoke_mount,
            managed_access_removed: managed,
            source_brain_id: c.source_brain_id.clone(),
            source_folder_id: c.source_folder_id.clone(),
            source_pending_key_version,
        },
    )
}

/// Plan what one departure fact revokes in one Brain: every Folder of which
/// the departed principal is a required recipient is marked for re-wrap at
/// its current key version, and every active destination Mount it
/// participates in loses it (and, when it controlled the Mount, every
/// managed participant). `required` gives each Folder's required
/// recipients, in Brain order.
pub fn plan_departure_revocation(
    stored: &StoredBrain,
    departed: &str,
    required: &Vec<Vec<String>>,
    mounts: &Vec<DepartureMountInput>,
) -> (r: Result<DepartureRevocationPlan, StoreError>)
    requires
        required.len() == stored.brain.folders.len(),
    ensures
        match r {
            Ok(plan) => {
                &&& plan.brain_id@ == stored.brain.id@
                &&& plan.pending_rotation_folders@.map_values(|p: (String, u32)| (p.0@, p.1))
                    == pending_folders(stored.brain.folders@, required@, departed@)
                &&& plan.mount_removals.len() == mounts.len()
                &&& forall|k: int| 0 <= k < mounts.len() ==> !mount_source_missing(#[trigger] mounts@[k], departed@)
                &&& forall|k: int|
                    0 <= k < mounts.len() ==> mount_removal_matches(
                        #[trigger] plan.mount_removals@[k],
                        mounts@[k],
                        departed@,
                    )
            },
            Err(e) => exists|k: int|
                0 <= k < mounts.len() && mount_source_missing(#[trigger] mounts@[k], departed@) && (forall|j: int|
                    0 <= j < k ==> !mount_source_missing(#[trigger] mounts@[j], departed@)) && is_missing_folder(
                    e,
                    mounts@[k].connection.source_folder_id@,
                ),
        },
{
    let folders = &stored.brain.folders;
    let mut pending: Vec<(String, u32)> = Vec::new();
    let mut i: usize = 0;
    while i < folders.len()
        invariant
            i <= folders.len(),
            required.len() == folders.len(),
            folders == stored.brain.folders,
            pending@.map_values(|p: (String, u32)| (p.0@, p.1)) == pending_folders(folders@.take(i as int), required@, departed@),
        decreases folders.len() - i,
    {
        assert(folders@.take(i + 1).drop_last() =~= folders@.take(i as int));
        let ghost prev = pending@;
        if texts_contain(&required[i], departed) {
            pending.push((folders[i].id.clone(), folders[i].current_key_version));
            assert(pending@.map_values(|p: (String, u32)| (p.0@, p.1)) =~= prev.map_values(|p: (String, u32)| (p.0@, p.1)).push((folders@[i as int].id@, folders@[i as int].current_key_version)));
        }
        i += 1;
    }
    assert(folders@.take(i as int) =~= folders@);
    let mut removals: Vec<DepartureMountRemoval> = Vec::new();
    let mut k: usize = 0;
    while k < mounts.len()
        invariant
            k <= mounts.len(),
            removals.len() == k,
            forall|j: int| 0 <= j < k ==> !mount_source_missing(#[trigger] mounts@[j], departed@),
            forall|j: int| 0 <= j < k ==> mount_removal_matches(#[trigger] removals@[j], mounts@[j], departed@),
        decreases mounts.len() - k,
    {
        match plan_mount_removal(&mounts[k], departed) {
            Err(e) => {
                return Err(e);
            },
            Ok(m) => {
                removals.push(m);
            },
        }
        k += 1;
    }
    Ok(DepartureRevocationPlan { brain_id: stored.brain.id.clone(), pending_rotation_folders: pending, mount_removals: removals })
}

/// A Brain whose authorization state a departure changes: every planned
/// Brain, and every Mount source Brain whose Folder is marked for re-wrap.
pub open spec fn departure_affects(plans: Seq<DepartureRevocationPlan>, b: Seq<char>) -> bool {
    exists|i: int|
        0 <= i < plans.len() && ((#[trigger] plans[i]).brain_id@ == b || exists|m: int|
            0 <= m < plans[i].mount_removals.len() && (#[trigger] plans[i].mount_removals@[m]).source_pending_key_version
                is Some && plans[i].mount_removals@[m].source_brain_id@ == b)
}

/// The Brains a departure affects, each once.
pub fn departure_affected_brains(plans: &Vec<DepartureRevocationPlan>) -> (r: Vec<String>)
    ensures
        texts_distinct(r@),
        forall|b: Seq<char>| #[trigger] seq_has(r@, b) <==> departure_affects(plans@, b),
{
    let mut r: Vec<String> = Vec::new();
    let mut i: usize = 0;
    while i < plans.len()
        invariant
            i <= plans.len(),
            texts_distinct(r@),
            forall|b: Seq<char>| #[trigger] seq_has(r@, b) <==> departure_affects(plans@.take(i as int), b),
        decreases plans.len() - i,
    {
        let ghost before = r@;
        let p = &plans[i];
        crate::deletion::add_text(&mut r, p.brain_id.as_str());
        let ghost mid = r@;
        let mut m: usize = 0;
        while m < p.mount_removals.len()
            invariant
                m <= p.mount_removals.len(),
                texts_distinct(r@),
                forall|b: Seq<char>| #[trigger] seq_has(r@, b) <==> (seq_has(mid, b) || exists|q: int|
                    0 <= q < m && (#[trigger] p.mount_removals@[q]).source_pending_key_version is Some
                        && p.mount_removals@[q].source_brain_id@ == b),
            decreases p.mount_removals.len() - m,
        {
            let ghost inner = r@;
            if p.mount_removals[m].source_pending_key_version.is_some() {
                crate::deletion::add_text(&mut r, p.mount_removals[m].source_brain_id.as_str());
            }
            proof {
                assert forall|b: Seq<char>| #[trigger] seq_has(r@, b) <==> (seq_has(mid, b) || exists|q: int|
                    0 <= q < m + 1 && (#[trigger] p.mount_removals@[q]).source_pending_key_version is Some
                        && p.mount_removals@[q].source_brain_id@ == b) by {
                    assert(seq_has(inner, b) == (seq_has(mid, b) || exists|q: int|
                        0 <= q < m && (#[trigger] p.mount_removals@[q]).source_pending_key_version is Some
                            && p.mount_removals@[q].source_brain_id@ == b));
                    if exists|q: int|
                        0 <= q < m + 1 && (#[trigger] p.mount_removals@[q]).source_pending_key_version is Some
                            && p.mount_removals@[q].source_brain_id@ == b {
                        let q = choose|q: int|
                            0 <= q < m + 1 && (#[trigger] p.mount_removals@[q]).source_pending_key_version is Some
                                && p.mount_removals@[q].source_brain_id@ == b;
                        if q < m {
                            assert(exists|q: int|
                                0 <= q < m && (#[trigger] p.mount_removals@[q]).source_pending_key_version is Some
                                    && p.mount_removals@[q].source_brain_id@ == b);
                        }
                    }
                }
            }
            m += 1;
        }
        proof {
            let t = plans@.take(i + 1);
            assert(t[i as int] == plans@[i as int]);
            assert forall|b: Seq<char>| #[trigger] seq_has(r@, b) <==> departure_affects(t, b) by {
                assert(seq_has(before, b) == departure_affects(plans@.take(i as int), b));
                assert(seq_has(mid, b) == (seq_has(before, b) || b == p.brain_id@));
                if departure_affects(t, b) {
                    let j = choose|j: int|
                        0 <= j < t.len() && ((#[trigger] t[j]).brain_id@ == b || exists|m: int|
                            0 <= m < t[j].mount_removals.len() && (#[trigger] t[j].mount_removals@[m]).source_pending_key_version
                                is Some && t[j].mount_removals@[m].source_brain_id@ == b);
                    if j < i {
                        assert(plans@.take(i as int)[j] == t[j]);
                        assert(departure_affects(plans@.take(i as int), b));
                    }
                }
                if departure_affects(plans@.take(i as int), b) {
                    let j = choose|j: int|
                        0 <= j < i && ((#[trigger] plans@.take(i as int)[j]).brain_id@ == b || exists|m: int|
                            0 <= m < plans@.take(i as int)[j].mount_removals.len()
                                && (#[trigger] plans@.take(i as int)[j].mount_removals@[m]).source_pending_key_version is Some
                                && plans@.take(i as int)[j].mount_removals@[m].source_brain_id@ == b);
                    assert(t[j] == plans@.take(i as int)[j]);
                }
            }
        }
        i += 1;
    }
    assert(plans@.take(i as int) =~= plans@);
    r
}

/// The marker the store keeps for the Folder, if any.
pub open spec fn marker_for(ms: Seq<DeparturePendingRotation>, brain_id: Seq<char>, folder_id: Seq<char>) -> Option<
    DeparturePendingRotation,
> {
    if exists|i: int| 0 <= i < ms.len() && (#[trigger] ms[i]).brain_id@ == brain_id && ms[i].folder_id@ == folder_id {
        Some(
            ms[choose|i: int|
                0 <= i < ms.len() && (#[trigger] ms[i]).brain_id@ == brain_id && ms[i].folder_id@ == folder_id],
        )
    } else {
        None
    }
}

/// At most one marker per Folder.
pub open spec fn markers_keyed(ms: Seq<DeparturePendingRotation>) -> bool {
    forall|i: int, j: int|
        0 <= i < j < ms.len() ==> !((#[trigger] ms[i]).brain_id@ == (#[trigger] ms[j]).brain_id@ && ms[i].folder_id@
            == ms[j].folder_id@)
}

/// The markers after marking a Folder: still one per Folder, the Folder's
/// marker carries the revision and key version, and every other Folder's
/// marker is unchanged.
pub open spec fn marked_after(
    before: Seq<DeparturePendingRotation>,
    after: Seq<DeparturePendingRotation>,
    brain_id: Seq<char>,
    folder_id: Seq<char>,
    key_version: u32,
    fact_revision: i64,
) -> bool {
    &&& markers_keyed(after)
    &&& marker_for(after, brain_id, folder_id) matches Some(m) && m.brain_id@ == brain_id && m.folder_id@ == folder_id
        && m.marked_at_revision == fact_revision && m.key_version == key_version
    &&& forall|b: Seq<char>, f: Seq<char>|
        !(b == brain_id && f == folder_id) ==> #[trigger] marker_for(after, b, f) == marker_for(before, b, f)
}

/// Mark a Folder as needing a re-wrap after the departure fact at
/// `fact_revision`: the Folder's marker is inserted, or replaced when one
/// exists, with the revision and the key version that was current.
pub fn mark_departure_pending_rotation(
    markers: &mut Vec<DeparturePendingRotation>,
    brain_id: &str,
    folder_id: &str,
    key_version: u32,
    fact_revision: i64,
)
    requires
        markers_keyed(old(markers)@),
    ensures
        marked_after(old(markers)@, final(markers)@, brain_id@, folder_id@, key_version, fact_revision),
{
    let ghost old_ms = markers@;
    let marker = DeparturePendingRotation {
        brain_id: brain_id.to_owned(),
        folder_id: folder_id.to_owned(),
        marked_at_revision: fact_revision,
        key_version,
    };
    let mut i: usize = 0;
    while i < markers.len()
        invariant
            i <= markers.len(),
            markers@ == old_ms,
            old_ms == old(markers)@,
            markers_keyed(old_ms),
            marker.brain_id@ == brain_id@,
            marker.folder_id@ == folder_id@,
            marker.marked_at_revision == fact_revision,
            marker.key_version == key_version,
            forall|j: int| 0 <= j < i ==> !((#[trigger] markers@[j]).brain_id@ == brain_id@ && markers@[j].folder_id@ == folder_id@),
        decreases markers.len() - i,
    {
        if str_eq(markers[i].brain_id.as_str(), brain_id) && str_eq(markers[i].folder_id.as_str(), folder_id) {
            markers.set(i, marker);
            proof {
                let ms = markers@;
                assert forall|a: int, c: int| 0 <= a < c < ms.len() implies !((#[trigger] ms[a]).brain_id@
                    == (#[trigger] ms[c]).brain_id@ && ms[a].folder_id@ == ms[c].folder_id@) by {
                    if a != i && c != i {
                        assert(ms[a] == old_ms[a] && ms[c] == old_ms[c]);
                    } else if a == i {
                        assert(ms[c] == old_ms[c]);
                        assert(!(old_ms[i as int].brain_id@ == old_ms[c].brain_id@ && old_ms[i as int].folder_id@ == old_ms[c].folder_id@));
                    } else {
                        assert(ms[a] == old_ms[a]);
                        assert(!(old_ms[a].brain_id@ == old_ms[i as int].brain_id@ && old_ms[a].folder_id@ == old_ms[i as int].folder_id@));
                    }
                }
                assert(ms[i as int].brain_id@ == brain_id@);
                let k = choose|k: int| 0 <= k < ms.len() && (#[trigger] ms[k]).brain_id@ == brain_id@ && ms[k].folder_id@ == folder_id@;
                if k != i {
                    assert(ms[k] == old_ms[k]);
                    if k < i {
                        assert(!(old_ms[k].brain_id@ == old_ms[i as int].brain_id@ && old_ms[k].folder_id@ == old_ms[i as int].folder_id@));
                    } else {
                        assert(!(old_ms[i as int].brain_id@ == old_ms[k].brain_id@ && old_ms[i as int].folder_id@ == old_ms[k].folder_id@));
                    }
                }
                assert forall|b: Seq<char>, f: Seq<char>|
                    !(b == brain_id@ && f == folder_id@) implies #[trigger] marker_for(ms, b, f) == marker_for(old_ms, b, f) by {
                    if exists|j: int| 0 <= j < ms.len() && (#[trigger] ms[j]).brain_id@ == b && ms[j].folder_id@ == f {
                        let k1 = choose|j: int| 0 <= j < ms.len() && (#[trigger] ms[j]).brain_id@ == b && ms[j].folder_id@ == f;
                        assert(k1 != i);
                        assert(ms[k1] == old_ms[k1]);
                        assert(old_ms[k1].brain_id@ == b && old_ms[k1].folder_id@ == f);
                        let k2 = choose|j: int| 0 <= j < old_ms.len() && (#[trigger] old_ms[j]).brain_id@ == b && old_ms[j].folder_id@ == f;
                        if k1 < k2 {
                            assert(!(old_ms[k1].brain_id@ == old_ms[k2].brain_id@ && old_ms[k1].folder_id@ == old_ms[k2].folder_id@));
                        } else if k2 < k1 {
                            assert(!(old_ms[k2].brain_id@ == old_ms[k1].brain_id@ && old_ms[k2].folder_id@ == old_ms[k1].folder_id@));
                        }
                    }
                    if exists|j: int| 0 <= j < old_ms.len() && (#[trigger] old_ms[j]).brain_id@ == b && old_ms[j].folder_id@ == f {
                        let j = choose|j: int| 0 <= j < old_ms.len() && (#[trigger] old_ms[j]).brain_id@ == b && old_ms[j].folder_id@ == f;
                        assert(j != i);
                        assert(ms[j] == old_ms[j]);
                    }
                }
            }
            return;
        }
        i += 1;
    }
    markers.push(marker);
    proof {
        let ms = markers@;
        let n = old_ms.len() as int;
        assert(ms[n].brain_id@ == brain_id@);
        let k = choose|k: int| 0 <= k < ms.len() && (#[trigger] ms[k]).brain_id@ == brain_id@ && ms[k].folder_id@ == folder_id@;
        if k < n {
            assert(ms[k] == old_ms[k]);
        }
        assert forall|a: int, c: int| 0 <= a < c < ms.len() implies !((#[trigger] ms[a]).brain_id@
            == (#[trigger] ms[c]).brain_id@ && ms[a].folder_id@ == ms[c].folder_id@) by {
            assert(ms[a] == old_ms[a]);
            if c < n {
                assert(ms[c] == old_ms[c]);
            }
        }
        assert forall|b: Seq<char>, f: Seq<char>|
            !(b == brain_id@ && f == folder_id@) implies #[trigger] marker_for(ms, b, f) == marker_for(old_ms, b, f) by {
            if exists|j: int| 0 <= j < ms.len() && (#[trigger] ms[j]).brain_id@ == b && ms[j].folder_id@ == f {
                let j = choose|j: int| 0 <= j < ms.len() && (#[trigger] ms[j]).brain_id@ == b && ms[j].folder_id@ == f;
                assert(j < n);
                assert(old_ms[j] == ms[j]);
                let j2 = choose|j: int| 0 <= j < old_ms.len() && (#[trigger] old_ms[j]).brain_id@ == b && old_ms[j].folder_id@ == f;
                assert(ms[j2] == old_ms[j2]);
            }
            if exists|j: int| 0 <= j < old_ms.len() && (#[trigger] old_ms[j]).brain_id@ == b && old_ms[j].folder_id@ == f {
                let j = choose|j: int| 0 <= j < old_ms.len() && (#[trigger] old_ms[j]).brain_id@ == b && old_ms[j].folder_id@ == f;
                assert(ms[j] == old_ms[j]);
            }
        }
    }
}

} // verus!
