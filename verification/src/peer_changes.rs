//! Restricting and restoring a peer Agent's access to a whole Personal
//! Brain: the plan of Folder rotations or re-grants, the Authenticated Human
//! Intent that authorizes it, and the client-prepared rotations, grants and
//! control records checked against the plan.
use vstd::prelude::*;

use crate::access::{has_brain_operational_authority, has_operational_authority};
use crate::controls::{access_mutation_ok, access_mutation_outcome, validate_access_mutation_control_records};
use crate::error::{broken, is_broken, StoreError};
use crate::folder_ops::{live_objects, live_objects_of, rotated, rotation_outcome, rotation_valid, unit_of};
use crate::grants::{
    grant_metadata_fault, grants_have_recipient, grants_recipient, recipients_match,
    validate_folder_grants, validate_grant_metadata,
};
use crate::faults::{first_fault, lemma_first_fault_end, lemma_first_fault_start, lemma_first_fault_step};
use crate::member_removal::MemberFolderRotation;
use crate::model::{
    copy_folder, copy_grant, copy_texts, count_distinct_texts, distinct_count, find_folder,
    folder_with_id, seq_has, texts_contain, texts_view, Folder, FolderKeyGrantMetadata, StoredBrain,
};
use crate::peer_access::{check_peer_agent_access, peer_access_outcome, PeerAccessOperation};
use crate::export::CurrentEncryptedObject;
use crate::records::SyncRecordInput;
use crate::rotation::validate_rotation_records;
use crate::text::str_eq;

verus! {

/// One Folder of a peer Agent access change: its key versions before and
/// after, and the recipients its grants must have.
#[derive(Debug, Clone, PartialEq, Eq)]
pub struct PeerAccessFolderPlan {
    pub folder_id: String,
    pub current_key_version: u32,
    pub new_key_version: u32,
    pub required_recipient_npubs: Vec<String>,
}

/// The plan of a peer Agent access change over every Folder of the Brain.
#[derive(Debug, Clone, PartialEq, Eq)]
pub struct PeerAccessPlan {
    pub human_npub: String,
    pub human_email: String,
    pub target_agent_npub: String,
    pub operation: PeerAccessOperation,
    pub folders: Vec<PeerAccessFolderPlan>,
}

/// What an Authenticated Human Intent names: the anchoring human, the
/// acting and target Agents, the operation and its scope.
#[derive(Debug, Clone, PartialEq, Eq)]
pub struct AuthenticatedHumanIntentRecord {
    pub human_npub: String,
    pub acting_agent_npub: String,
    pub target_agent_npub: String,
    pub operation: String,
    pub scope_kind: String,
    pub folder_id: Option<String>,
}

/// The Folder part of a plan: a restriction rotates every Folder to its
/// next key version with the required recipients of the Brain without the
/// target; a restoration re-grants every Folder at its current key version
/// to the target alone.
pub open spec fn folder_plan_matches(
    x: PeerAccessFolderPlan,
    op: PeerAccessOperation,
    target: Seq<char>,
    f: Folder,
    required: Seq<String>,
) -> bool {
    &&& x.folder_id@ == f.id@
    &&& x.current_key_version == f.current_key_version
    &&& match op {
        PeerAccessOperation::Restrict => x.new_key_version == f.current_key_version + 1
            && x.required_recipient_npubs@ == required,
        PeerAccessOperation::Restore => x.new_key_version == f.current_key_version
            && texts_view(x.required_recipient_npubs@) == seq![target],
    }
}

/// A plan built for the Brain, one entry per Folder in order.
pub open spec fn peer_plan_built(
    p: PeerAccessPlan,
    stored: StoredBrain,
    human_email: Seq<char>,
    target: Seq<char>,
    operation: Seq<char>,
    required: Seq<Vec<String>>,
) -> bool {
    &&& stored.brain.owner_user_id matches Some(o) && p.human_npub@ == o@
    &&& p.human_email@ == human_email
    &&& p.target_agent_npub@ == target
    &&& crate::peer_access::operation_spelling(p.operation) == operation
    &&& p.folders@.len() == stored.brain.folders@.len()
    &&& forall|k: int|
        0 <= k < p.folders@.len() ==> folder_plan_matches(
            #[trigger] p.folders@[k],
            p.operation,
            target,
            stored.brain.folders@[k],
            required[k]@,
        )
}

/// Plan a peer Agent access change after the checks of
/// `check_peer_agent_access`. `required` holds, per Folder of the Brain, the
/// recipients a restriction's rotated key must reach.
pub fn plan_peer_agent_access(
    stored: &StoredBrain,
    ready_agents: &Vec<String>,
    excluded: bool,
    human_email: &Option<String>,
    target_agent_npub: &str,
    operation: &str,
    actor: &str,
    required: &Vec<Vec<String>>,
) -> (r: Result<PeerAccessPlan, StoreError>)
    requires
        required.len() == stored.brain.folders.len(),
        operation@ == "restrict"@ ==> forall|k: int|
            0 <= k < stored.brain.folders.len() ==> (#[trigger] stored.brain.folders@[k]).current_key_version
                < u32::MAX,
    ensures
        peer_access_outcome(
            unit_of(r),
            *stored,
            ready_agents@,
            excluded,
            human_email is Some,
            target_agent_npub@,
            operation@,
            actor@,
        ),
        r matches Ok(p) ==> human_email matches Some(m) && peer_plan_built(
            p,
            *stored,
            m@,
            target_agent_npub@,
            operation@,
            required@,
        ),
{
    match check_peer_agent_access(
        stored,
        ready_agents,
        excluded,
        human_email.is_some(),
        target_agent_npub,
        operation,
        actor,
    ) {
        Err(e) => {
            return Err(e);
        },
        Ok(()) => {},
    }
    let op = match crate::peer_access::parse_peer_access_operation(operation) {
        Some(op) => op,
        None => {
            return Err(broken("peer Agent Brain access operation is invalid"));
        },
    };
    let owner = match &stored.brain.owner_user_id {
        Some(o) => o.clone(),
        None => {
            return Err(broken("peer Agent Brain access requires a Personal Brain"));
        },
    };
    let email = match human_email {
        Some(m) => m.clone(),
        None => {
            return Err(broken("Personal Brain account cohort is missing"));
        },
    };
    proof {
        reveal_strlit("restrict");
        reveal_strlit("restore");
    }
    let mut folders: Vec<PeerAccessFolderPlan> = Vec::new();
    let mut k: usize = 0;
    while k < stored.brain.folders.len()
        invariant
            k <= stored.brain.folders.len(),
            required.len() == stored.brain.folders.len(),
            crate::peer_access::operation_spelling(op) == operation@,
            operation@ == "restrict"@ ==> forall|j: int|
                0 <= j < stored.brain.folders.len() ==> (#[trigger] stored.brain.folders@[j]).current_key_version
                    < u32::MAX,
            folders@.len() == k,
            forall|j: int|
                0 <= j < k ==> folder_plan_matches(
                    #[trigger] folders@[j],
                    op,
                    target_agent_npub@,
                    stored.brain.folders@[j],
                    required@[j]@,
                ),
        decreases stored.brain.folders.len() - k,
    {
        let f = &stored.brain.folders[k];
        let entry = match op {
            PeerAccessOperation::Restrict => {
                assert(stored.brain.folders@[k as int].current_key_version < u32::MAX);
                PeerAccessFolderPlan {
                    folder_id: f.id.clone(),
                    current_key_version: f.current_key_version,
                    new_key_version: f.current_key_version + 1,
                    required_recipient_npubs: copy_texts(&required[k]),
                }
            },
            PeerAccessOperation::Restore => {
                let mut only: Vec<String> = Vec::new();
                only.push(target_agent_npub.to_owned());
                proof {
                    assert(texts_view(only@) =~= seq![target_agent_npub@]);
                }
                PeerAccessFolderPlan {
                    folder_id: f.id.clone(),
                    current_key_version: f.current_key_version,
                    new_key_version: f.current_key_version,
                    required_recipient_npubs: only,
                }
            },
        };
        folders.push(entry);
        k += 1;
    }
    Ok(
        PeerAccessPlan {
            human_npub: owner,
            human_email: email,
            target_agent_npub: target_agent_npub.to_owned(),
            operation: op,
            folders,
        },
    )
}

/// The intent authorizes exactly this Brain-wide change.
pub open spec fn intent_authorizes(
    i: AuthenticatedHumanIntentRecord,
    human: Seq<char>,
    actor: Seq<char>,
    target: Seq<char>,
    operation: Seq<char>,
) -> bool {
    &&& i.human_npub@ == human
    &&& i.acting_agent_npub@ == actor
    &&& i.target_agent_npub@ == target
    &&& i.operation@ == operation
    &&& i.scope_kind@ == "brain"@
    &&& i.folder_id is None
}

fn check_intent(
    i: &AuthenticatedHumanIntentRecord,
    human: &str,
    actor: &str,
    target: &str,
    operation: &str,
) -> (r: bool)
    ensures
        r == intent_authorizes(*i, human@, actor@, target@, operation@),
{
    str_eq(i.human_npub.as_str(), human) && str_eq(i.acting_agent_npub.as_str(), actor) && str_eq(
        i.target_agent_npub.as_str(),
        target,
    ) && str_eq(i.operation.as_str(), operation) && str_eq(i.scope_kind.as_str(), "brain")
        && i.folder_id.is_none()
}

/// The Folder ids of a plan.
pub open spec fn plan_ids(plan: Seq<PeerAccessFolderPlan>) -> Seq<Seq<char>> {
    plan.map_values(|x: PeerAccessFolderPlan| x.folder_id@)
}

/// The plan entry for a Folder: the last one naming it, as a map collected
/// from the plan keeps.
pub open spec fn plan_entry(plan: Seq<PeerAccessFolderPlan>, id: Seq<char>) -> Option<PeerAccessFolderPlan>
    decreases plan.len(),
{
    if plan.len() == 0 {
        None
    } else if plan.last().folder_id@ == id {
        Some(plan.last())
    } else {
        plan_entry(plan.drop_last(), id)
    }
}

fn find_plan_entry(plan: &Vec<PeerAccessFolderPlan>, id: &str) -> (r: Option<usize>)
    ensures
        match r {
            Some(i) => i < plan.len() && plan_entry(plan@, id@) == Some(plan@[i as int]),
            None => plan_entry(plan@, id@) is None,
        },
{
    let mut i: usize = plan.len();
    proof {
        assert(plan@.take(plan.len() as int) =~= plan@);
    }
    while i > 0
        invariant
            i <= plan.len(),
            plan_entry(plan@, id@) == plan_entry(plan@.take(i as int), id@),
        decreases i,
    {
        proof {
            assert(plan@.take(i as int).drop_last() =~= plan@.take(i - 1));
            assert(plan@.take(i as int).last() == plan@[i - 1]);
        }
        if str_eq(plan[i - 1].folder_id.as_str(), id) {
            return Some(i - 1);
        }
        i -= 1;
    }
    None
}

fn plan_folder_ids(plan: &Vec<PeerAccessFolderPlan>) -> (r: Vec<String>)
    ensures
        texts_view(r@) == plan_ids(plan@),
{
    let mut r: Vec<String> = Vec::new();
    let mut i: usize = 0;
    while i < plan.len()
        invariant
            i <= plan.len(),
            texts_view(r@) == plan_ids(plan@.take(i as int)),
        decreases plan.len() - i,
    {
        r.push(plan[i].folder_id.clone());
        proof {
            assert(plan_ids(plan@.take(i + 1)) =~= plan_ids(plan@.take(i as int)).push(plan@[i as int].folder_id@));
            assert(texts_view(r@) =~= texts_view(r@.drop_last()).push(r@.last()@));
        }
        i += 1;
    }
    proof {
        assert(plan@.take(plan.len() as int) =~= plan@);
    }
    r
}

/// The recipients of a list of grants.
pub open spec fn grant_recipients(gs: Seq<FolderKeyGrantMetadata>) -> Seq<Seq<char>> {
    gs.map_values(|g: FolderKeyGrantMetadata| g.recipient_npub@)
}

/// The Folders of a list of grants.
pub open spec fn grant_folder_ids(gs: Seq<FolderKeyGrantMetadata>) -> Seq<Seq<char>> {
    gs.map_values(|g: FolderKeyGrantMetadata| g.folder_id@)
}

fn recipient_list(gs: &Vec<FolderKeyGrantMetadata>) -> (r: Vec<String>)
    ensures
        texts_view(r@) == grant_recipients(gs@),
{
    let mut r: Vec<String> = Vec::new();
    let mut i: usize = 0;
    while i < gs.len()
        invariant
            i <= gs.len(),
            texts_view(r@) == grant_recipients(gs@.take(i as int)),
        decreases gs.len() - i,
    {
        r.push(gs[i].recipient_npub.clone());
        proof {
            assert(grant_recipients(gs@.take(i + 1)) =~= grant_recipients(gs@.take(i as int)).push(
                gs@[i as int].recipient_npub@,
            ));
            assert(texts_view(r@) =~= texts_view(r@.drop_last()).push(r@.last()@));
        }
        i += 1;
    }
    proof {
        assert(gs@.take(gs.len() as int) =~= gs@);
    }
    r
}

fn grant_folder_list(gs: &Vec<FolderKeyGrantMetadata>) -> (r: Vec<String>)
    ensures
        texts_view(r@) == grant_folder_ids(gs@),
{
    let mut r: Vec<String> = Vec::new();
    let mut i: usize = 0;
    while i < gs.len()
        invariant
            i <= gs.len(),
            texts_view(r@) == grant_folder_ids(gs@.take(i as int)),
        decreases gs.len() - i,
    {
        r.push(gs[i].folder_id.clone());
        proof {
            assert(grant_folder_ids(gs@.take(i + 1)) =~= grant_folder_ids(gs@.take(i as int)).push(
                gs@[i as int].folder_id@,
            ));
            assert(texts_view(r@) =~= texts_view(r@.drop_last()).push(r@.last()@));
        }
        i += 1;
    }
    proof {
        assert(gs@.take(gs.len() as int) =~= gs@);
    }
    r
}

/// The grants reach exactly the listed recipients.
fn same_recipients(gs: &Vec<FolderKeyGrantMetadata>, required: &Vec<String>) -> (r: bool)
    ensures
        r == recipients_match(gs@, required@),
{
    let mut i: usize = 0;
    while i < gs.len()
        invariant
            i <= gs.len(),
            forall|j: int| 0 <= j < i ==> seq_has(required@, (#[trigger] gs@[j]).recipient_npub@),
        decreases gs.len() - i,
    {
        if !texts_contain(required, gs[i].recipient_npub.as_str()) {
            proof {
                assert(grants_recipient(gs@, gs@[i as int].recipient_npub@));
            }
            return false;
        }
        i += 1;
    }
    let mut k: usize = 0;
    while k < required.len()
        invariant
            k <= required.len(),
            forall|j: int| 0 <= j < gs.len() ==> seq_has(required@, (#[trigger] gs@[j]).recipient_npub@),
            forall|j: int| 0 <= j < k ==> grants_recipient(gs@, (#[trigger] required@[j])@),
        decreases required.len() - k,
    {
        if !grants_have_recipient(gs, required[k].as_str()) {
            proof {
                assert(seq_has(required@, required@[k as int]@));
            }
            return false;
        }
        k += 1;
    }
    proof {
        assert forall|u: Seq<char>| grants_recipient(gs@, u) <==> seq_has(required@, u) by {
            if grants_recipient(gs@, u) {
                let j = choose|j: int| 0 <= j < gs@.len() && (#[trigger] gs@[j]).recipient_npub@ == u;
                assert(seq_has(required@, gs@[j].recipient_npub@));
            }
            if seq_has(required@, u) {
                let j = choose|j: int| 0 <= j < required@.len() && (#[trigger] required@[j])@ == u;
                assert(grants_recipient(gs@, required@[j]@));
            }
        }
    }
    true
}

/// The rotation does not match its plan entry: another key version, other
/// recipients, or a recipient granted twice.
pub open spec fn restriction_mismatch(x: PeerAccessFolderPlan, rot: MemberFolderRotation) -> bool {
    ||| rot.new_key_version != x.new_key_version
    ||| !recipients_match(rot.grants@, x.required_recipient_npubs@)
    ||| rot.grants@.len() != distinct_count(grant_recipients(rot.grants@))
}

/// The Folder a rotation rotates, as stored.
pub open spec fn rotated_folder(stored: StoredBrain, rot: MemberFolderRotation) -> Folder {
    rotated(folder_with_id(stored.brain.folders@, rot.folder_id@)->0, rot.new_key_version)
}

/// A restriction rotation matches the plan and is a valid rotation.
pub open spec fn restriction_rotation_ok(
    stored: StoredBrain,
    plan: Seq<PeerAccessFolderPlan>,
    rot: MemberFolderRotation,
    objects: Seq<CurrentEncryptedObject>,
) -> bool {
    match plan_entry(plan, rot.folder_id@) {
        None => false,
        Some(x) => !restriction_mismatch(x, rot) && rotation_valid(
            stored,
            stored.brain,
            rotated_folder(stored, rot),
            x.required_recipient_npubs@,
            rot.grants@,
            live_objects(objects, rot.folder_id@),
            rot.reencrypted_records@,
        ),
    }
}

/// The outcome of checking one restriction rotation.
pub open spec fn restriction_rotation_outcome(
    r: Result<(), StoreError>,
    stored: StoredBrain,
    plan: Seq<PeerAccessFolderPlan>,
    rot: MemberFolderRotation,
    objects: Seq<CurrentEncryptedObject>,
) -> bool {
    match plan_entry(plan, rot.folder_id@) {
        None => r matches Err(e) && is_broken(e, "peer Agent Brain restriction contains an unexpected Folder"@),
        Some(x) => if restriction_mismatch(x, rot) {
            r matches Err(e) && is_broken(e, "peer Agent Brain restriction grants do not match the plan"@)
        } else {
            rotation_outcome(
                r,
                stored,
                stored.brain,
                rotated_folder(stored, rot),
                x.required_recipient_npubs@,
                rot.grants@,
                live_objects(objects, rot.folder_id@),
                rot.reencrypted_records@,
            )
        },
    }
}

/// Every Folder a plan names is a Folder of the Brain.
pub open spec fn plan_folders_exist(stored: StoredBrain, plan: Seq<PeerAccessFolderPlan>) -> bool {
    forall|k: int| 0 <= k < plan.len() ==> folder_with_id(stored.brain.folders@, (#[trigger] plan[k]).folder_id@) is Some
}

proof fn lemma_plan_entry_in_plan(plan: Seq<PeerAccessFolderPlan>, id: Seq<char>)
    requires
        plan_entry(plan, id) is Some,
    ensures
        exists|k: int| 0 <= k < plan.len() && plan[k] == plan_entry(plan, id)->0,
        plan_entry(plan, id)->0.folder_id@ == id,
    decreases plan.len(),
{
    if plan.last().folder_id@ != id {
        lemma_plan_entry_in_plan(plan.drop_last(), id);
        let k = choose|k: int| 0 <= k < plan.drop_last().len() && plan.drop_last()[k] == plan_entry(plan.drop_last(), id)->0;
        assert(plan[k] == plan.drop_last()[k]);
    } else {
        assert(plan[plan.len() - 1] == plan.last());
    }
}

fn check_restriction_rotation(
    stored: &StoredBrain,
    plan: &Vec<PeerAccessFolderPlan>,
    rot: &MemberFolderRotation,
    objects: &Vec<CurrentEncryptedObject>,
) -> (r: Result<(), StoreError>)
    requires
        plan_folders_exist(*stored, plan@),
    ensures
        restriction_rotation_outcome(r, *stored, plan@, *rot, objects@),
        r is Ok <==> restriction_rotation_ok(*stored, plan@, *rot, objects@),
{
    let x = match find_plan_entry(plan, rot.folder_id.as_str()) {
        None => {
            return Err(broken("peer Agent Brain restriction contains an unexpected Folder"));
        },
        Some(i) => &plan[i],
    };
    proof {
        lemma_plan_entry_in_plan(plan@, rot.folder_id@);
    }
    let idx = match find_folder(&stored.brain.folders, rot.folder_id.as_str()) {
        Some(i) => i,
        None => {
            proof {
                let k = choose|k: int| 0 <= k < plan@.len() && plan@[k] == plan_entry(plan@, rot.folder_id@)->0;
                assert(folder_with_id(stored.brain.folders@, plan@[k].folder_id@) is Some);
            }
            return Err(StoreError::MissingFolder { folder_id: rot.folder_id.clone() });
        },
    };
    let recipients = recipient_list(&rot.grants);
    if rot.new_key_version != x.new_key_version || !same_recipients(&rot.grants, &x.required_recipient_npubs)
        || rot.grants.len() != count_distinct_texts(&recipients) {
        return Err(broken("peer Agent Brain restriction grants do not match the plan"));
    }
    let mut rotated_copy = copy_folder(&stored.brain.folders[idx]);
    rotated_copy.current_key_version = rot.new_key_version;
    let agent: Option<&str> = match &stored.personal_agent {
        Some(a) => Some(a.agent_npub.as_str()),
        None => None,
    };
    if let Err(e) = validate_folder_grants(&stored.brain, &rotated_copy, &x.required_recipient_npubs, &rot.grants, agent) {
        return Err(e);
    }
    let live = live_objects_of(objects, rot.folder_id.as_str());
    validate_rotation_records(&live, &rot.reencrypted_records)
}

/// Every grant of the rotations, rotation by rotation.
pub open spec fn rotation_grants(rs: Seq<MemberFolderRotation>) -> Seq<FolderKeyGrantMetadata>
    decreases rs.len(),
{
    if rs.len() == 0 {
        Seq::empty()
    } else {
        rotation_grants(rs.drop_last()) + rs.last().grants@
    }
}

/// The Folder ids of rotations.
pub open spec fn rotation_ids(rs: Seq<MemberFolderRotation>) -> Seq<Seq<char>> {
    rs.map_values(|r: MemberFolderRotation| r.folder_id@)
}

fn rotation_folder_list(rs: &Vec<MemberFolderRotation>) -> (r: Vec<String>)
    ensures
        texts_view(r@) == rotation_ids(rs@),
{
    let mut r: Vec<String> = Vec::new();
    let mut i: usize = 0;
    while i < rs.len()
        invariant
            i <= rs.len(),
            texts_view(r@) == rotation_ids(rs@.take(i as int)),
        decreases rs.len() - i,
    {
        r.push(rs[i].folder_id.clone());
        proof {
            assert(rotation_ids(rs@.take(i + 1)) =~= rotation_ids(rs@.take(i as int)).push(rs@[i as int].folder_id@));
            assert(texts_view(r@) =~= texts_view(r@.drop_last()).push(r@.last()@));
        }
        i += 1;
    }
    proof {
        assert(rs@.take(rs.len() as int) =~= rs@);
    }
    r
}

/// Outcome of checking a restriction: the intent must authorize it, every
/// planned Folder needs exactly one rotation, each rotation must match its
/// plan entry and be valid (the first failing one reports), the control
/// records must carry one grant control per grant and one access-change
/// control, and the target needs an active Personal Brain cohort.
pub open spec fn restriction_outcome(
    r: Result<(), StoreError>,
    stored: StoredBrain,
    plan: PeerAccessPlan,
    intent: AuthenticatedHumanIntentRecord,
    actor: Seq<char>,
    rotations: Seq<MemberFolderRotation>,
    controls: Seq<SyncRecordInput>,
    objects: Seq<CurrentEncryptedObject>,
    cohort_count: nat,
) -> bool {
    let expected = distinct_count(plan_ids(plan.folders@));
    if !intent_authorizes(intent, plan.human_npub@, actor, plan.target_agent_npub@, "restrict"@) {
        r matches Err(e) && is_broken(e, "Authenticated Human Intent does not authorize this Brain restriction"@)
    } else if rotations.len() != expected || distinct_count(rotation_ids(rotations)) != expected {
        r matches Err(e) && is_broken(e, "peer Agent Brain restriction requires every Folder rotation"@)
    } else if exists|k: int|
        0 <= k < rotations.len() && !restriction_rotation_ok(stored, plan.folders@, #[trigger] rotations[k], objects) {
        exists|k: int|
            0 <= k < rotations.len() && !restriction_rotation_ok(stored, plan.folders@, #[trigger] rotations[k], objects)
                && (forall|j: int|
                0 <= j < k ==> restriction_rotation_ok(stored, plan.folders@, #[trigger] rotations[j], objects))
                && restriction_rotation_outcome(r, stored, plan.folders@, rotations[k], objects)
    } else if !access_mutation_ok(rotation_grants(rotations), controls, actor) {
        access_mutation_outcome(r, rotation_grants(rotations), controls, actor)
    } else if cohort_count == 0 {
        r matches Err(e) && is_broken(e, "peer Agent has no active Personal Brain cohort"@)
    } else {
        r is Ok
    }
}

/// Check a peer Agent restriction before anything is written.
/// `target_cohort_ids` are the active Brain cohorts in which the target is
/// an active account Agent; each gets the exclusion and an audit row.
pub fn check_peer_restriction(
    stored: &StoredBrain,
    plan: &PeerAccessPlan,
    intent: &AuthenticatedHumanIntentRecord,
    actor: &str,
    rotations: &Vec<MemberFolderRotation>,
    control_records: &Vec<SyncRecordInput>,
    objects: &Vec<CurrentEncryptedObject>,
    target_cohort_ids: &Vec<String>,
) -> (r: Result<(), StoreError>)
    requires
        plan_folders_exist(*stored, plan.folders@),
    ensures
        restriction_outcome(
            r,
            *stored,
            *plan,
            *intent,
            actor@,
            rotations@,
            control_records@,
            objects@,
            target_cohort_ids@.len(),
        ),
{
    proof {
        reveal_strlit("restrict");
        reveal_strlit("brain");
    }
    if !check_intent(intent, plan.human_npub.as_str(), actor, plan.target_agent_npub.as_str(), "restrict") {
        return Err(broken("Authenticated Human Intent does not authorize this Brain restriction"));
    }
    let expected = count_distinct_texts(&plan_folder_ids(&plan.folders));
    if rotations.len() != expected || count_distinct_texts(&rotation_folder_list(rotations)) != expected {
        return Err(broken("peer Agent Brain restriction requires every Folder rotation"));
    }
    let mut all_grants: Vec<FolderKeyGrantMetadata> = Vec::new();
    let mut k: usize = 0;
    while k < rotations.len()
        invariant
            k <= rotations.len(),
            plan_folders_exist(*stored, plan.folders@),
            intent_authorizes(*intent, plan.human_npub@, actor@, plan.target_agent_npub@, "restrict"@),
            rotations.len() == distinct_count(plan_ids(plan.folders@)),
            distinct_count(rotation_ids(rotations@)) == distinct_count(plan_ids(plan.folders@)),
            forall|j: int| 0 <= j < k ==> restriction_rotation_ok(*stored, plan.folders@, #[trigger] rotations@[j], objects@),
            all_grants@ == rotation_grants(rotations@.take(k as int)),
        decreases rotations.len() - k,
    {
        let rot = &rotations[k];
        if let Err(e) = check_restriction_rotation(stored, &plan.folders, rot, objects) {
            proof {
                assert(!restriction_rotation_ok(*stored, plan.folders@, rotations@[k as int], objects@));
            }
            return Err(e);
        }
        let mut g: usize = 0;
        while g < rot.grants.len()
            invariant
                g <= rot.grants.len(),
                k < rotations.len(),
                rot == rotations@[k as int],
                all_grants@ == rotation_grants(rotations@.take(k as int)) + rot.grants@.take(g as int),
            decreases rot.grants.len() - g,
        {
            all_grants.push(copy_grant(&rot.grants[g]));
            proof {
                assert(rot.grants@.take(g + 1) =~= rot.grants@.take(g as int).push(rot.grants@[g as int]));
            }
            g += 1;
        }
        proof {
            assert(rot.grants@.take(rot.grants.len() as int) =~= rot.grants@);
            assert(rotations@.take(k + 1).drop_last() =~= rotations@.take(k as int));
            assert(rotations@.take(k + 1).last() == rotations@[k as int]);
        }
        k += 1;
    }
    proof {
        assert(rotations@.take(rotations.len() as int) =~= rotations@);
    }
    if let Err(e) = validate_access_mutation_control_records(&all_grants, control_records, actor) {
        return Err(e);
    }
    if target_cohort_ids.len() == 0 {
        return Err(broken("peer Agent has no active Personal Brain cohort"));
    }
    Ok(())
}

/// Why a restoration grant is refused, if it is: its metadata, a Folder
/// outside the plan, or a grant other than the target's at the Folder's
/// current key version issued by an actor with Brain authority.
pub open spec fn restoration_grant_fault(
    plan: Seq<PeerAccessFolderPlan>,
    target: Seq<char>,
    actor: Seq<char>,
    authority: bool,
    g: FolderKeyGrantMetadata,
) -> Option<Seq<char>> {
    if grant_metadata_fault(g) is Some {
        grant_metadata_fault(g)
    } else {
        match plan_entry(plan, g.folder_id@) {
            None => Some("peer Agent Brain restoration contains an unexpected Folder"@),
            Some(x) => if g.key_version != x.current_key_version || g.recipient_npub@ != target || g.issuer_npub@
                != actor || !authority {
                Some("peer Agent Brain restoration grant is invalid"@)
            } else {
                None
            },
        }
    }
}

pub open spec fn restoration_grant_check(
    plan: Seq<PeerAccessFolderPlan>,
    target: Seq<char>,
    actor: Seq<char>,
    authority: bool,
) -> spec_fn(FolderKeyGrantMetadata) -> Option<Seq<char>> {
    |g: FolderKeyGrantMetadata| restoration_grant_fault(plan, target, actor, authority, g)
}

/// Outcome of checking a restoration: the intent must authorize it, one
/// grant per planned Folder, each grant the target's at the current key
/// version by the acting reader (the first failing grant reports), and one
/// grant control per grant plus one access-change control.
pub open spec fn restoration_outcome(
    r: Result<(), StoreError>,
    stored: StoredBrain,
    plan: PeerAccessPlan,
    intent: AuthenticatedHumanIntentRecord,
    actor: Seq<char>,
    grants: Seq<FolderKeyGrantMetadata>,
    controls: Seq<SyncRecordInput>,
) -> bool {
    let expected = distinct_count(plan_ids(plan.folders@));
    let check = restoration_grant_check(
        plan.folders@,
        plan.target_agent_npub@,
        actor,
        has_operational_authority(stored, actor),
    );
    if !intent_authorizes(intent, plan.human_npub@, actor, plan.target_agent_npub@, "restore"@) {
        r matches Err(e) && is_broken(e, "Authenticated Human Intent does not authorize this Brain restoration"@)
    } else if grants.len() != expected || distinct_count(grant_folder_ids(grants)) != expected {
        r matches Err(e) && is_broken(e, "peer Agent Brain restoration requires one current grant per Folder"@)
    } else if first_fault(grants, check) is Some {
        r matches Err(e) && is_broken(e, first_fault(grants, check)->0)
    } else {
        access_mutation_outcome(r, grants, controls, actor)
    }
}

fn check_restoration_grant(
    plan: &Vec<PeerAccessFolderPlan>,
    target: &str,
    actor: &str,
    authority: bool,
    g: &FolderKeyGrantMetadata,
) -> (r: Result<(), StoreError>)
    ensures
        match restoration_grant_fault(plan@, target@, actor@, authority, *g) {
            None => r is Ok,
            Some(m) => r matches Err(e) && is_broken(e, m),
        },
{
    if let Err(e) = validate_grant_metadata(g) {
        return Err(e);
    }
    let x = match find_plan_entry(plan, g.folder_id.as_str()) {
        None => {
            return Err(broken("peer Agent Brain restoration contains an unexpected Folder"));
        },
        Some(i) => &plan[i],
    };
    if g.key_version != x.current_key_version || !str_eq(g.recipient_npub.as_str(), target) || !str_eq(
        g.issuer_npub.as_str(),
        actor,
    ) || !authority {
        return Err(broken("peer Agent Brain restoration grant is invalid"));
    }
    Ok(())
}

/// Check a peer Agent restoration before anything is written.
pub fn check_peer_restoration(
    stored: &StoredBrain,
    plan: &PeerAccessPlan,
    intent: &AuthenticatedHumanIntentRecord,
    actor: &str,
    grants: &Vec<FolderKeyGrantMetadata>,
    control_records: &Vec<SyncRecordInput>,
) -> (r: Result<(), StoreError>)
    ensures
        restoration_outcome(r, *stored, *plan, *intent, actor@, grants@, control_records@),
{
    proof {
        reveal_strlit("restore");
        reveal_strlit("brain");
    }
    if !check_intent(intent, plan.human_npub.as_str(), actor, plan.target_agent_npub.as_str(), "restore") {
        return Err(broken("Authenticated Human Intent does not authorize this Brain restoration"));
    }
    let expected = count_distinct_texts(&plan_folder_ids(&plan.folders));
    if grants.len() != expected || count_distinct_texts(&grant_folder_list(grants)) != expected {
        return Err(broken("peer Agent Brain restoration requires one current grant per Folder"));
    }
    let authority = has_brain_operational_authority(stored, actor);
    let ghost check = restoration_grant_check(plan.folders@, plan.target_agent_npub@, actor@, authority);
    proof {
        lemma_first_fault_start(grants@, check);
    }
    let mut i: usize = 0;
    while i < grants.len()
        invariant
            i <= grants.len(),
            check == restoration_grant_check(plan.folders@, plan.target_agent_npub@, actor@, authority),
            authority == has_operational_authority(*stored, actor@),
            intent_authorizes(*intent, plan.human_npub@, actor@, plan.target_agent_npub@, "restore"@),
            grants.len() == distinct_count(plan_ids(plan.folders@)),
            distinct_count(grant_folder_ids(grants@)) == distinct_count(plan_ids(plan.folders@)),
            first_fault(grants@, check) == first_fault(grants@.skip(i as int), check),
        decreases grants.len() - i,
    {
        proof {
            lemma_first_fault_step(grants@, check, i as int);
        }
        if let Err(e) = check_restoration_grant(&plan.folders, plan.target_agent_npub.as_str(), actor, authority, &grants[i]) {
            proof {
                assert(check(grants@[i as int]) == restoration_grant_fault(
                    plan.folders@,
                    plan.target_agent_npub@,
                    actor@,
                    authority,
                    grants@[i as int],
                ));
            }
            return Err(e);
        }
        i += 1;
    }
    proof {
        lemma_first_fault_end(grants@, check);
    }
    validate_access_mutation_control_records(grants, control_records, actor)
}

/// A restoration that cleared no active Brain-wide exclusion found the
/// restriction already lifted.
pub fn check_restriction_cleared(cleared_exclusions: usize) -> (r: Result<(), StoreError>)
    ensures
        if cleared_exclusions == 0 {
            r matches Err(e) && is_broken(e, "peer Agent Brain restriction was already cleared"@)
        } else {
            r is Ok
        },
{
    if cleared_exclusions == 0 {
        return Err(broken("peer Agent Brain restriction was already cleared"));
    }
    Ok(())
}

} // verus!
