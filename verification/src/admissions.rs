//! Admitting a Personal Brain's account Agents: staging fresh roster facts
//! as the desired set, and making every planned Agent ready once an
//! existing reader prepared its exact current Folder grants.
use vstd::prelude::*;

use crate::access::{has_brain_operational_authority, has_operational_authority};
use crate::bootstrap::{is_account_agent, is_human, BootstrapAccountCohort, CohortParticipant};
use crate::controls::{first_grant_control_fault, validate_folder_key_grant_control_records};
use crate::error::{broken, is_broken, StoreError};
use crate::faults::{first_fault, lemma_first_fault_end, lemma_first_fault_start, lemma_first_fault_step};
use crate::grants::{
    grant_metadata_fault, grant_triple, grants_have_triple, grants_triple, validate_grant_metadata,
};
use crate::kinds::BrainKind;
use crate::model::{distinct_count, Folder, FolderKeyGrantMetadata, StoredBrain};
use crate::records::SyncRecordInput;
use crate::text::str_eq;

verus! {

/// The first participant that is the human, if any.
pub open spec fn first_human(ps: Seq<CohortParticipant>) -> Option<CohortParticipant>
    decreases ps.len(),
{
    if ps.len() == 0 {
        None
    } else if is_human(ps[0]) {
        Some(ps[0])
    } else {
        first_human(ps.drop_first())
    }
}

/// Checks before staging a roster: a Personal Brain with an owner, a roster
/// whose first human is the owner, a reconciled account cohort, and a
/// roster revision the store can hold.
pub open spec fn admission_stage_outcome(
    r: Result<(), StoreError>,
    stored: StoredBrain,
    cohort: BootstrapAccountCohort,
    has_cohort_id: bool,
) -> bool {
    if stored.brain.kind != BrainKind::Personal {
        r matches Err(e) && is_broken(e, "Personal Brain agent admission requires a Personal Brain"@)
    } else if stored.brain.owner_user_id is None {
        r matches Err(e) && is_broken(e, "Personal Brain owner is missing"@)
    } else if first_human(cohort.participants@) is None {
        r matches Err(e) && is_broken(e, "Personal Brain roster requires its human participant"@)
    } else if first_human(cohort.participants@)->0.npub@ != stored.brain.owner_user_id->0@ {
        r matches Err(e) && is_broken(e, "Personal Brain roster human does not match its owner"@)
    } else if !has_cohort_id {
        r matches Err(e) && is_broken(e, "Personal Brain has no reconciled account cohort"@)
    } else if cohort.roster_revision > i64::MAX {
        r matches Err(e) && is_broken(e, "roster revision exceeds SQLite range"@)
    } else {
        r is Ok
    }
}

fn find_human(ps: &Vec<CohortParticipant>) -> (r: Option<usize>)
    ensures
        match r {
            Some(i) => i < ps.len() && first_human(ps@) == Some(ps@[i as int]),
            None => first_human(ps@) is None,
        },
{
    proof {
        reveal_strlit("human");
        assert(ps@.skip(0) =~= ps@);
    }
    let mut i: usize = 0;
    while i < ps.len()
        invariant
            i <= ps.len(),
            first_human(ps@) == first_human(ps@.skip(i as int)),
        decreases ps.len() - i,
    {
        proof {
            assert(ps@.skip(i as int).drop_first() =~= ps@.skip(i + 1));
            assert(ps@.skip(i as int)[0] == ps@[i as int]);
        }
        if str_eq(ps[i].relationship.as_str(), "human") {
            return Some(i);
        }
        i += 1;
    }
    None
}

/// Check a roster before staging its account Agents as desired.
/// `cohort_id` is the Brain's active account cohort for its owner, if one
/// was reconciled.
pub fn check_admission_stage(stored: &StoredBrain, cohort: &BootstrapAccountCohort, cohort_id: Option<&str>) -> (r:
    Result<(), StoreError>)
    ensures
        admission_stage_outcome(r, *stored, *cohort, cohort_id is Some),
{
    if stored.brain.kind != BrainKind::Personal {
        return Err(broken("Personal Brain agent admission requires a Personal Brain"));
    }
    let owner = match &stored.brain.owner_user_id {
        None => {
            return Err(broken("Personal Brain owner is missing"));
        },
        Some(o) => o,
    };
    let h = match find_human(&cohort.participants) {
        None => {
            return Err(broken("Personal Brain roster requires its human participant"));
        },
        Some(h) => h,
    };
    if !str_eq(cohort.participants[h].npub.as_str(), owner.as_str()) {
        return Err(broken("Personal Brain roster human does not match its owner"));
    }
    if cohort_id.is_none() {
        return Err(broken("Personal Brain has no reconciled account cohort"));
    }
    if cohort.roster_revision > i64::MAX as u64 {
        return Err(broken("roster revision exceeds SQLite range"));
    }
    Ok(())
}

/// The staged Agent still awaits admission.
pub open spec fn awaiting_admission(status: Option<String>) -> bool {
    status matches Some(s) && (s@ == "desired"@ || s@ == "blocked"@)
}

/// The roster's account Agents whose stored status, after staging, still
/// awaits admission, in roster order.
pub open spec fn admitted_agents(ps: Seq<CohortParticipant>, statuses: Seq<Option<String>>) -> Seq<CohortParticipant>
    decreases ps.len(),
{
    if ps.len() == 0 {
        Seq::empty()
    } else {
        let prev = admitted_agents(ps.drop_last(), statuses.drop_last());
        if is_account_agent(ps.last()) && awaiting_admission(statuses.last()) {
            prev.push(ps.last())
        } else {
            prev
        }
    }
}

/// The Folders with their current key versions.
pub open spec fn folder_versions(fs: Seq<Folder>) -> Seq<(Seq<char>, u32)> {
    fs.map_values(|f: Folder| (f.id@, f.current_key_version))
}

/// Agents to admit to a Personal Brain with the Folder key versions their
/// grants must carry.
#[derive(Debug, Clone, PartialEq, Eq)]
pub struct PersonalBrainAgentAdmissionPlan {
    pub cohort_id: String,
    pub human_npub: String,
    pub human_email: String,
    pub roster_revision: u64,
    pub agents: Vec<CohortParticipant>,
    pub folder_key_versions: Vec<(String, u32)>,
}

/// The key-version pairs of a plan as texts.
pub open spec fn plan_versions(v: Seq<(String, u32)>) -> Seq<(Seq<char>, u32)> {
    v.map_values(|p: (String, u32)| (p.0@, p.1))
}

pub(crate) fn copy_participant(p: &CohortParticipant) -> (r: CohortParticipant)
    ensures
        r == *p,
{
    CohortParticipant {
        npub: p.npub.clone(),
        relationship: p.relationship.clone(),
        nip05: p.nip05.clone(),
        name: p.name.clone(),
    }
}

fn text_of(status: &Option<String>, s: &str) -> (r: bool)
    ensures
        r == (status matches Some(t) && t@ == s@),
{
    match status {
        Some(t) => str_eq(t.as_str(), s),
        None => false,
    }
}

/// The admission plan once the roster is staged (after
/// `check_admission_stage` passed). `statuses` holds, per roster
/// participant, its stored Personal Brain Agent status, if any.
pub fn admission_plan(
    stored: &StoredBrain,
    cohort: &BootstrapAccountCohort,
    cohort_id: &str,
    statuses: &Vec<Option<String>>,
) -> (r: PersonalBrainAgentAdmissionPlan)
    requires
        statuses.len() == cohort.participants.len(),
    ensures
        r.cohort_id@ == cohort_id@,
        stored.brain.owner_user_id matches Some(o) ==> r.human_npub@ == o@,
        r.human_email@ == cohort.human_email@,
        r.roster_revision == cohort.roster_revision,
        r.agents@ == admitted_agents(cohort.participants@, statuses@),
        plan_versions(r.folder_key_versions@) == folder_versions(stored.brain.folders@),
{
    proof {
        reveal_strlit("account_agent");
        reveal_strlit("desired");
        reveal_strlit("blocked");
    }
    let owner = match &stored.brain.owner_user_id {
        Some(o) => o.clone(),
        None => String::new(),
    };
    let ps = &cohort.participants;
    let mut agents: Vec<CohortParticipant> = Vec::new();
    let mut i: usize = 0;
    while i < ps.len()
        invariant
            i <= ps.len(),
            statuses.len() == ps.len(),
            agents@ == admitted_agents(ps@.take(i as int), statuses@.take(i as int)),
        decreases ps.len() - i,
    {
        proof {
            assert(ps@.take(i + 1).drop_last() =~= ps@.take(i as int));
            assert(statuses@.take(i + 1).drop_last() =~= statuses@.take(i as int));
            assert(ps@.take(i + 1).last() == ps@[i as int]);
            assert(statuses@.take(i + 1).last() == statuses@[i as int]);
        }
        let waiting = text_of(&statuses[i], "desired") || text_of(&statuses[i], "blocked");
        if str_eq(ps[i].relationship.as_str(), "account_agent") && waiting {
            agents.push(copy_participant(&ps[i]));
        }
        i += 1;
    }
    proof {
        assert(ps@.take(ps.len() as int) =~= ps@);
        assert(statuses@.take(ps.len() as int) =~= statuses@);
    }
    let fs = &stored.brain.folders;
    let mut versions: Vec<(String, u32)> = Vec::new();
    let mut k: usize = 0;
    while k < fs.len()
        invariant
            k <= fs.len(),
            plan_versions(versions@) == folder_versions(fs@.take(k as int)),
        decreases fs.len() - k,
    {
        versions.push((fs[k].id.clone(), fs[k].current_key_version));
        proof {
            assert(folder_versions(fs@.take(k + 1)) =~= folder_versions(fs@.take(k as int)).push(
                (fs@[k as int].id@, fs@[k as int].current_key_version),
            ));
            assert(plan_versions(versions@) =~= plan_versions(versions@.drop_last()).push(
                (versions@.last().0@, versions@.last().1),
            ));
        }
        k += 1;
    }
    proof {
        assert(fs@.take(fs.len() as int) =~= fs@);
    }
    PersonalBrainAgentAdmissionPlan {
        cohort_id: cohort_id.to_owned(),
        human_npub: owner,
        human_email: cohort.human_email.clone(),
        roster_revision: cohort.roster_revision,
        agents,
        folder_key_versions: versions,
    }
}

/// The grants an admission must carry, as (Folder, recipient, key version):
/// every current Folder for every planned Agent.
pub open spec fn expected_triples(agents: Seq<CohortParticipant>, versions: Seq<(Seq<char>, u32)>) -> Seq<
    (Seq<char>, Seq<char>, u32),
>
    decreases agents.len(),
{
    if agents.len() == 0 {
        Seq::empty()
    } else {
        expected_triples(agents.drop_last(), versions) + versions.map_values(
            |v: (Seq<char>, u32)| (v.0, agents.last().npub@, v.1),
        )
    }
}

/// The grants cover exactly the expected triples, each once.
pub open spec fn admission_grants_cover(
    expected: Seq<(Seq<char>, Seq<char>, u32)>,
    gs: Seq<FolderKeyGrantMetadata>,
) -> bool {
    &&& forall|t: (Seq<char>, Seq<char>, u32)| expected.contains(t) <==> grants_triple(gs, t)
    &&& gs.len() == distinct_count(expected)
}

/// Why an admission grant is refused, if it is.
pub open spec fn admission_grant_fault(actor: Seq<char>, g: FolderKeyGrantMetadata) -> Option<Seq<char>> {
    if grant_metadata_fault(g) is Some {
        grant_metadata_fault(g)
    } else if g.issuer_npub@ != actor {
        Some("Personal Brain admission grant issuer must be the acting reader"@)
    } else {
        None
    }
}

pub open spec fn admission_grant_check(actor: Seq<char>) -> spec_fn(FolderKeyGrantMetadata) -> Option<Seq<char>> {
    |g: FolderKeyGrantMetadata| admission_grant_fault(actor, g)
}

/// Outcome of committing an admission: an actor with Brain authority,
/// grants for exactly every planned Agent and current Folder, each well
/// formed and issued by the actor, one grant control per grant, a roster
/// revision the store can hold, and no planned Agent revoked.
pub open spec fn admission_commit_outcome(
    r: Result<(), StoreError>,
    stored: StoredBrain,
    plan: PersonalBrainAgentAdmissionPlan,
    actor: Seq<char>,
    gs: Seq<FolderKeyGrantMetadata>,
    controls: Seq<SyncRecordInput>,
    agent_statuses: Seq<String>,
) -> bool {
    if !has_operational_authority(stored, actor) {
        r matches Err(e) && is_broken(e, "Personal Brain agent admission requires operational authority"@)
    } else if !admission_grants_cover(expected_triples(plan.agents@, plan_versions(plan.folder_key_versions@)), gs) {
        r matches Err(e) && is_broken(
            e,
            "Personal Brain admission grants must cover every planned agent and current Folder"@,
        )
    } else if first_fault(gs, admission_grant_check(actor)) is Some {
        r matches Err(e) && is_broken(e, first_fault(gs, admission_grant_check(actor))->0)
    } else if controls.len() != gs.len() {
        r matches Err(e) && is_broken(e, "sharing mutation requires one Folder Key Grant control record per grant"@)
    } else if first_grant_control_fault(gs, controls) is Some {
        r matches Err(e) && is_broken(e, first_grant_control_fault(gs, controls)->0)
    } else if plan.roster_revision > i64::MAX {
        r matches Err(e) && is_broken(e, "roster revision exceeds SQLite range"@)
    } else if exists|i: int| 0 <= i < agent_statuses.len() && (#[trigger] agent_statuses[i])@ == "revoked"@ {
        r matches Err(e) && is_broken(e, "revoked Personal Brain agents require explicit restoration"@)
    } else {
        r is Ok
    }
}

fn expected_grant_triples(plan: &PersonalBrainAgentAdmissionPlan) -> (r: Vec<(String, String, u32)>)
    ensures
        triples_view(r@) == expected_triples(plan.agents@, plan_versions(plan.folder_key_versions@)),
{
    let ghost vs = plan_versions(plan.folder_key_versions@);
    let mut r: Vec<(String, String, u32)> = Vec::new();
    let mut a: usize = 0;
    while a < plan.agents.len()
        invariant
            a <= plan.agents.len(),
            vs == plan_versions(plan.folder_key_versions@),
            triples_view(r@) == expected_triples(plan.agents@.take(a as int), vs),
        decreases plan.agents.len() - a,
    {
        let ghost before = triples_view(r@);
        let npub = &plan.agents[a].npub;
        let mut k: usize = 0;
        while k < plan.folder_key_versions.len()
            invariant
                k <= plan.folder_key_versions.len(),
                a < plan.agents.len(),
                npub == plan.agents@[a as int].npub,
                vs == plan_versions(plan.folder_key_versions@),
                triples_view(r@) == before + vs.take(k as int).map_values(
                    |v: (Seq<char>, u32)| (v.0, npub@, v.1),
                ),
            decreases plan.folder_key_versions.len() - k,
        {
            let fv = &plan.folder_key_versions[k];
            let ghost old_r = triples_view(r@);
            r.push((fv.0.clone(), npub.clone(), fv.1));
            proof {
                assert(vs[k as int] == (fv.0@, fv.1));
                assert(triples_view(r@) =~= old_r.push((fv.0@, npub@, fv.1)));
                assert(vs.take(k + 1).map_values(|v: (Seq<char>, u32)| (v.0, npub@, v.1)) =~= vs.take(
                    k as int,
                ).map_values(|v: (Seq<char>, u32)| (v.0, npub@, v.1)).push((vs[k as int].0, npub@, vs[k as int].1)));
            }
            k += 1;
        }
        proof {
            assert(vs.take(vs.len() as int) =~= vs);
            assert(plan.agents@.take(a + 1).drop_last() =~= plan.agents@.take(a as int));
            assert(plan.agents@.take(a + 1).last() == plan.agents@[a as int]);
        }
        a += 1;
    }
    proof {
        assert(plan.agents@.take(plan.agents.len() as int) =~= plan.agents@);
    }
    r
}

/// Triples as texts.
pub open spec fn triples_view(v: Seq<(String, String, u32)>) -> Seq<(Seq<char>, Seq<char>, u32)> {
    v.map_values(|t: (String, String, u32)| (t.0@, t.1@, t.2))
}

fn same_triple(a: &(String, String, u32), b: &(String, String, u32)) -> (r: bool)
    ensures
        r == ((a.0@, a.1@, a.2) == (b.0@, b.1@, b.2)),
{
    str_eq(a.0.as_str(), b.0.as_str()) && str_eq(a.1.as_str(), b.1.as_str()) && a.2 == b.2
}

fn count_distinct_triples(v: &Vec<(String, String, u32)>) -> (r: usize)
    ensures
        r == distinct_count(triples_view(v@)),
{
    let ghost s = triples_view(v@);
    let mut count: usize = 0;
    let mut i: usize = 0;
    while i < v.len()
        invariant
            i <= v.len(),
            s == triples_view(v@),
            count == distinct_count(s.take(i as int)),
            count <= i,
        decreases v.len() - i,
    {
        let mut seen = false;
        let mut j: usize = 0;
        while j < i
            invariant
                j <= i,
                i < v.len(),
                s == triples_view(v@),
                seen <==> exists|k: int| 0 <= k < j && #[trigger] s[k] == s[i as int],
            decreases i - j,
        {
            let same = same_triple(&v[j], &v[i]);
            proof {
                assert(s[j as int] == (v@[j as int].0@, v@[j as int].1@, v@[j as int].2));
                assert(s[i as int] == (v@[i as int].0@, v@[i as int].1@, v@[i as int].2));
            }
            if same {
                seen = true;
            }
            j += 1;
        }
        proof {
            let t = s.take(i + 1);
            assert(t.drop_last() =~= s.take(i as int));
            assert(t.last() == s[i as int]);
            if seen {
                let k = choose|k: int| 0 <= k < i && #[trigger] s[k] == s[i as int];
                assert(s.take(i as int)[k] == s[k]);
            }
            if s.take(i as int).contains(s[i as int]) {
                let k = choose|k: int| 0 <= k < i && #[trigger] s.take(i as int)[k] == s[i as int];
                assert(s[k] == s.take(i as int)[k]);
            }
        }
        if !seen {
            count += 1;
        }
        i += 1;
    }
    proof {
        assert(s.take(v.len() as int) =~= s);
    }
    count
}

/// The grants carry exactly the expected triples.
fn grants_cover(expected: &Vec<(String, String, u32)>, gs: &Vec<FolderKeyGrantMetadata>) -> (r: bool)
    ensures
        r == (forall|t: (Seq<char>, Seq<char>, u32)| triples_view(expected@).contains(t) <==> grants_triple(gs@, t)),
{
    let ghost s = triples_view(expected@);
    let mut i: usize = 0;
    while i < expected.len()
        invariant
            i <= expected.len(),
            s == triples_view(expected@),
            forall|j: int| 0 <= j < i ==> grants_triple(gs@, #[trigger] s[j]),
        decreases expected.len() - i,
    {
        let t = &expected[i];
        proof {
            assert(s[i as int] == (t.0@, t.1@, t.2));
        }
        if !grants_have_triple(gs, t.0.as_str(), t.1.as_str(), t.2) {
            proof {
                assert(s.contains(s[i as int]));
            }
            return false;
        }
        i += 1;
    }
    let mut g: usize = 0;
    while g < gs.len()
        invariant
            g <= gs.len(),
            s == triples_view(expected@),
            forall|j: int| 0 <= j < s.len() ==> grants_triple(gs@, #[trigger] s[j]),
            forall|j: int| 0 <= j < g ==> s.contains(grant_triple(#[trigger] gs@[j])),
        decreases gs.len() - g,
    {
        let gr = &gs[g];
        let mut found = false;
        let mut k: usize = 0;
        while k < expected.len()
            invariant
                k <= expected.len(),
                g < gs.len(),
                gr == gs@[g as int],
                s == triples_view(expected@),
                found ==> s.contains(grant_triple(*gr)),
                !found ==> forall|j: int| 0 <= j < k ==> #[trigger] s[j] != grant_triple(*gr),
            decreases expected.len() - k,
        {
            let t = &expected[k];
            proof {
                assert(s[k as int] == (t.0@, t.1@, t.2));
            }
            if str_eq(t.0.as_str(), gr.folder_id.as_str()) && str_eq(t.1.as_str(), gr.recipient_npub.as_str())
                && t.2 == gr.key_version {
                proof {
                    assert(s[k as int] == grant_triple(*gr));
                }
                found = true;
            }
            k += 1;
        }
        if !found {
            proof {
                assert(grants_triple(gs@, grant_triple(gs@[g as int])));
                assert(!s.contains(grant_triple(gs@[g as int])));
            }
            return false;
        }
        g += 1;
    }
    proof {
        assert forall|t: (Seq<char>, Seq<char>, u32)| s.contains(t) <==> grants_triple(gs@, t) by {
            if s.contains(t) {
                let j = choose|j: int| 0 <= j < s.len() && s[j] == t;
                assert(grants_triple(gs@, s[j]));
            }
            if grants_triple(gs@, t) {
                let j = choose|j: int| 0 <= j < gs@.len() && grant_triple(#[trigger] gs@[j]) == t;
                assert(s.contains(grant_triple(gs@[j])));
            }
        }
    }
    true
}

/// Some planned Agent is revoked.
fn any_revoked(statuses: &Vec<String>) -> (r: bool)
    ensures
        r == exists|i: int| 0 <= i < statuses.len() && (#[trigger] statuses@[i])@ == "revoked"@,
{
    proof {
        reveal_strlit("revoked");
    }
    let mut k: usize = 0;
    while k < statuses.len()
        invariant
            k <= statuses.len(),
            forall|j: int| 0 <= j < k ==> (#[trigger] statuses@[j])@ != "revoked"@,
        decreases statuses.len() - k,
    {
        if str_eq(statuses[k].as_str(), "revoked") {
            return true;
        }
        k += 1;
    }
    false
}

/// Check an admission commit before anything is written.
/// `agent_statuses` holds the stored status of each planned Agent.
pub fn check_admission_commit(
    stored: &StoredBrain,
    plan: &PersonalBrainAgentAdmissionPlan,
    actor: &str,
    grants: &Vec<FolderKeyGrantMetadata>,
    control_records: &Vec<SyncRecordInput>,
    agent_statuses: &Vec<String>,
) -> (r: Result<(), StoreError>)
    ensures
        admission_commit_outcome(r, *stored, *plan, actor@, grants@, control_records@, agent_statuses@),
{
    if !has_brain_operational_authority(stored, actor) {
        return Err(broken("Personal Brain agent admission requires operational authority"));
    }
    let expected = expected_grant_triples(plan);
    if !grants_cover(&expected, grants) || grants.len() != count_distinct_triples(&expected) {
        return Err(broken("Personal Brain admission grants must cover every planned agent and current Folder"));
    }
    let ghost check = admission_grant_check(actor@);
    proof {
        lemma_first_fault_start(grants@, check);
    }
    let mut i: usize = 0;
    while i < grants.len()
        invariant
            i <= grants.len(),
            check == admission_grant_check(actor@),
            first_fault(grants@, check) == first_fault(grants@.skip(i as int), check),
            has_operational_authority(*stored, actor@),
            admission_grants_cover(expected_triples(plan.agents@, plan_versions(plan.folder_key_versions@)), grants@),
        decreases grants.len() - i,
    {
        proof {
            lemma_first_fault_step(grants@, check, i as int);
            assert(check(grants@[i as int]) == admission_grant_fault(actor@, grants@[i as int]));
        }
        if let Err(e) = validate_grant_metadata(&grants[i]) {
            return Err(e);
        }
        if !str_eq(grants[i].issuer_npub.as_str(), actor) {
            return Err(broken("Personal Brain admission grant issuer must be the acting reader"));
        }
        i += 1;
    }
    proof {
        lemma_first_fault_end(grants@, check);
    }
    if let Err(e) = validate_folder_key_grant_control_records(grants, control_records) {
        return Err(e);
    }
    if plan.roster_revision > i64::MAX as u64 {
        return Err(broken("roster revision exceeds SQLite range"));
    }
    if any_revoked(agent_statuses) {
        return Err(broken("revoked Personal Brain agents require explicit restoration"));
    }
    Ok(())
}

} // verus!
