//! Signed control records that must accompany a sharing mutation.
use vstd::prelude::*;

use crate::error::{broken, is_broken, StoreError};
use crate::kinds::SyncRecordType;
use crate::model::FolderKeyGrantMetadata;
use crate::records::SyncRecordInput;
use crate::text::str_eq;

verus! {

/// The optional Folder id names the Folder.
pub open spec fn names_folder(f: Option<String>, folder_id: Seq<char>) -> bool {
    f matches Some(x) && x@ == folder_id
}

/// Why the control record does not match its grant, if it does not.
pub open spec fn grant_control_fault(g: FolderKeyGrantMetadata, input: SyncRecordInput) -> Option<
    Seq<char>,
> {
    match input {
        SyncRecordInput::Control(c) => if c.record_type != SyncRecordType::FolderKeyGrant
            || !names_folder(c.folder_id, g.folder_id@) || c.actor_npub@ != g.issuer_npub@ {
            Some("sharing mutation control records do not match their Folder Key Grants"@)
        } else {
            None
        },
        _ => Some("sharing mutation Folder Key Grant records must be control records"@),
    }
}

/// The first grant whose paired control record does not match it.
pub open spec fn first_grant_control_fault(
    gs: Seq<FolderKeyGrantMetadata>,
    rs: Seq<SyncRecordInput>,
) -> Option<Seq<char>>
    decreases gs.len(),
{
    if gs.len() == 0 || rs.len() == 0 {
        None
    } else if grant_control_fault(gs[0], rs[0]) is Some {
        grant_control_fault(gs[0], rs[0])
    } else {
        first_grant_control_fault(gs.drop_first(), rs.drop_first())
    }
}

fn check_grant_control(g: &FolderKeyGrantMetadata, input: &SyncRecordInput) -> (r: Result<
    (),
    StoreError,
>)
    ensures
        match grant_control_fault(*g, *input) {
            None => r is Ok,
            Some(m) => r matches Err(e) && is_broken(e, m),
        },
{
    match input {
        SyncRecordInput::Control(c) => {
            let names = match &c.folder_id {
                Some(f) => str_eq(f.as_str(), g.folder_id.as_str()),
                None => false,
            };
            if c.record_type != SyncRecordType::FolderKeyGrant || !names || !str_eq(
                c.actor_npub.as_str(),
                g.issuer_npub.as_str(),
            ) {
                return Err(
                    broken("sharing mutation control records do not match their Folder Key Grants"),
                );
            }
            Ok(())
        },
        _ => Err(broken("sharing mutation Folder Key Grant records must be control records")),
    }
}

proof fn lemma_pairs_step(gs: Seq<FolderKeyGrantMetadata>, rs: Seq<SyncRecordInput>, i: int)
    requires
        0 <= i < gs.len(),
        i < rs.len(),
    ensures
        first_grant_control_fault(gs.skip(i), rs.skip(i)) == if grant_control_fault(
            gs[i],
            rs[i],
        ) is Some {
            grant_control_fault(gs[i], rs[i])
        } else {
            first_grant_control_fault(gs.skip(i + 1), rs.skip(i + 1))
        },
{
    assert(gs.skip(i).drop_first() =~= gs.skip(i + 1));
    assert(rs.skip(i).drop_first() =~= rs.skip(i + 1));
}

/// Check grant/record pairs in order; `n` pairs, starting at `from`.
pub(crate) fn check_pairs(
    grants: &Vec<FolderKeyGrantMetadata>,
    records: &Vec<SyncRecordInput>,
    n: usize,
) -> (r: Result<(), StoreError>)
    requires
        n == grants.len(),
        n <= records.len(),
    ensures
        match first_grant_control_fault(grants@, records@.take(n as int)) {
            None => r is Ok,
            Some(m) => r matches Err(e) && is_broken(e, m),
        },
{
    let ghost rs = records@.take(n as int);
    assert(grants@.skip(0) =~= grants@);
    assert(rs.skip(0) =~= rs);
    let mut i: usize = 0;
    while i < n
        invariant
            i <= n,
            n == grants.len(),
            n <= records.len(),
            rs == records@.take(n as int),
            first_grant_control_fault(grants@, rs) == first_grant_control_fault(
                grants@.skip(i as int),
                rs.skip(i as int),
            ),
        decreases n - i,
    {
        proof {
            lemma_pairs_step(grants@, rs, i as int);
        }
        check_grant_control(&grants[i], &records[i])?;
        i += 1;
    }
    assert(grants@.skip(i as int).len() == 0);
    Ok(())
}

/// Check that a sharing mutation carries one matching Folder Key Grant
/// control record per grant, paired in order.
pub fn validate_folder_key_grant_control_records(
    grants: &Vec<FolderKeyGrantMetadata>,
    control_records: &Vec<SyncRecordInput>,
) -> (r: Result<(), StoreError>)
    ensures
        if control_records.len() != grants.len() {
            r matches Err(e) && is_broken(
                e,
                "sharing mutation requires one Folder Key Grant control record per grant"@,
            )
        } else {
            match first_grant_control_fault(grants@, control_records@) {
                None => r is Ok,
                Some(m) => r matches Err(e) && is_broken(e, m),
            }
        },
{
    if control_records.len() != grants.len() {
        return Err(broken("sharing mutation requires one Folder Key Grant control record per grant"));
    }
    assert(control_records@.take(grants.len() as int) =~= control_records@);
    check_pairs(grants, control_records, grants.len())
}

/// Why one of the two records of a Folder access grant is wrong, if it is.
pub open spec fn access_grant_record_fault(
    folder_id: Seq<char>,
    g: FolderKeyGrantMetadata,
    input: SyncRecordInput,
    expected: SyncRecordType,
) -> Option<Seq<char>> {
    match input {
        SyncRecordInput::Control(c) => if c.record_type != expected || !names_folder(
            c.folder_id,
            folder_id,
        ) || c.actor_npub@ != g.issuer_npub@ {
            Some("Folder access grant control records do not match the signed mutation"@)
        } else {
            None
        },
        _ => Some("Folder access grant records must be control records"@),
    }
}

fn check_access_grant_record(
    folder_id: &str,
    g: &FolderKeyGrantMetadata,
    input: &SyncRecordInput,
    expected: SyncRecordType,
) -> (r: Result<(), StoreError>)
    ensures
        match access_grant_record_fault(folder_id@, *g, *input, expected) {
            None => r is Ok,
            Some(m) => r matches Err(e) && is_broken(e, m),
        },
{
    match input {
        SyncRecordInput::Control(c) => {
            let names = match &c.folder_id {
                Some(f) => str_eq(f.as_str(), folder_id),
                None => false,
            };
            if c.record_type != expected || !names || !str_eq(
                c.actor_npub.as_str(),
                g.issuer_npub.as_str(),
            ) {
                return Err(
                    broken("Folder access grant control records do not match the signed mutation"),
                );
            }
            Ok(())
        },
        _ => Err(broken("Folder access grant records must be control records")),
    }
}

/// A Folder access grant carries exactly a Folder Key Grant record then an
/// access-change record, both for the Folder and by the grant's issuer.
pub fn validate_folder_grant_control_records(
    folder_id: &str,
    grant: &FolderKeyGrantMetadata,
    control_records: &Vec<SyncRecordInput>,
) -> (r: Result<(), StoreError>)
    ensures
        if control_records.len() != 2 {
            r matches Err(e) && is_broken(
                e,
                "Folder access grant requires one Folder Key Grant record and one access-change record"@,
            )
        } else if access_grant_record_fault(
            folder_id@,
            *grant,
            control_records@[0],
            SyncRecordType::FolderKeyGrant,
        ) is Some {
            r matches Err(e) && is_broken(
                e,
                access_grant_record_fault(
                    folder_id@,
                    *grant,
                    control_records@[0],
                    SyncRecordType::FolderKeyGrant,
                ).unwrap(),
            )
        } else {
            match access_grant_record_fault(
                folder_id@,
                *grant,
                control_records@[1],
                SyncRecordType::BrainAdminAccessChange,
            ) {
                None => r is Ok,
                Some(m) => r matches Err(e) && is_broken(e, m),
            }
        },
{
    if control_records.len() != 2 {
        return Err(
            broken(
                "Folder access grant requires one Folder Key Grant record and one access-change record",
            ),
        );
    }
    check_access_grant_record(folder_id, grant, &control_records[0], SyncRecordType::FolderKeyGrant)?;
    check_access_grant_record(
        folder_id,
        grant,
        &control_records[1],
        SyncRecordType::BrainAdminAccessChange,
    )
}

/// Why the trailing access-change proof of a peer Agent access change is
/// wrong, if it is.
pub open spec fn access_change_fault(input: SyncRecordInput, actor: Seq<char>) -> Option<Seq<char>> {
    match input {
        SyncRecordInput::Control(c) => if c.record_type != SyncRecordType::BrainAdminAccessChange
            || c.actor_npub@ != actor {
            Some("peer Agent access-change control does not match the acting Agent"@)
        } else {
            None
        },
        _ => Some("peer Agent access change proof must be a control record"@),
    }
}

/// A peer Agent access change's control records are complete and match:
/// one grant control per grant, then one access-change control by the actor.
pub open spec fn access_mutation_ok(
    grants: Seq<FolderKeyGrantMetadata>,
    controls: Seq<SyncRecordInput>,
    actor: Seq<char>,
) -> bool {
    &&& controls.len() == grants.len() + 1
    &&& first_grant_control_fault(grants, controls.take(grants.len() as int)) is None
    &&& access_change_fault(controls[grants.len() as int], actor) is None
}

/// Outcome of checking a peer Agent access change's control records: one
/// grant control per grant, then one access-change control by the actor.
pub open spec fn access_mutation_outcome(
    r: Result<(), StoreError>,
    grants: Seq<FolderKeyGrantMetadata>,
    controls: Seq<SyncRecordInput>,
    actor: Seq<char>,
) -> bool {
    if controls.len() != grants.len() + 1 {
        r matches Err(e) && is_broken(
            e,
            "peer Agent access change requires grant controls and one access-change control"@,
        )
    } else if first_grant_control_fault(grants, controls.take(grants.len() as int)) is Some {
        r matches Err(e) && is_broken(
            e,
            first_grant_control_fault(grants, controls.take(grants.len() as int)).unwrap(),
        )
    } else {
        match access_change_fault(controls[grants.len() as int], actor) {
            None => r is Ok,
            Some(m) => r matches Err(e) && is_broken(e, m),
        }
    }
}

/// A peer Agent access change carries one grant control per grant, then one
/// access-change control by the acting Agent.
pub fn validate_access_mutation_control_records(
    grants: &Vec<FolderKeyGrantMetadata>,
    control_records: &Vec<SyncRecordInput>,
    actor: &str,
) -> (r: Result<(), StoreError>)
    ensures
        access_mutation_outcome(r, grants@, control_records@, actor@),
{
    if control_records.len() == 0 || control_records.len() - 1 != grants.len() {
        return Err(
            broken("peer Agent access change requires grant controls and one access-change control"),
        );
    }
    if let Err(e) = check_pairs(grants, control_records, grants.len()) {
        return Err(e);
    }
    match &control_records[grants.len()] {
        SyncRecordInput::Control(c) => {
            if c.record_type != SyncRecordType::BrainAdminAccessChange || !str_eq(
                c.actor_npub.as_str(),
                actor,
            ) {
                return Err(
                    broken("peer Agent access-change control does not match the acting Agent"),
                );
            }
            Ok(())
        },
        _ => Err(broken("peer Agent access change proof must be a control record")),
    }
}

/// Why a pairing record is unacceptable on its own, if it is.
pub open spec fn pairing_record_fault(input: SyncRecordInput, folder_id: Seq<char>, owner: Seq<char>) -> Option<Seq<char>> {
    match input {
        SyncRecordInput::Control(c) => if !names_folder(c.folder_id, folder_id) || c.actor_npub@ != owner {
            Some("Agent Workspace sync records must be owner-authored for the paired Folder"@)
        } else if c.record_type != SyncRecordType::FolderKeyGrant && c.record_type != SyncRecordType::BrainAdminAccessChange {
            Some("Agent Workspace pairing received an unrelated sync record"@)
        } else {
            None
        },
        _ => Some("Agent Workspace pairing only accepts control sync records"@),
    }
}

pub open spec fn pairing_record_check(folder_id: Seq<char>, owner: Seq<char>) -> spec_fn(SyncRecordInput) -> Option<Seq<char>> {
    |input: SyncRecordInput| pairing_record_fault(input, folder_id, owner)
}

/// Number of records of the type.
pub open spec fn count_type(rs: Seq<SyncRecordInput>, t: SyncRecordType) -> nat
    decreases rs.len(),
{
    if rs.len() == 0 {
        0
    } else {
        count_type(rs.drop_last(), t) + if rs.last().spec_record_type() == t { 1nat } else { 0nat }
    }
}

/// An Agent Workspace pairing carries, for its Folder and by the owner, one
/// Folder Key Grant control record per grant and exactly one access-change
/// record.
pub fn validate_pairing_sync_records(
    sync_records: &Vec<SyncRecordInput>,
    grant_count: usize,
    folder_id: &str,
    owner_npub: &str,
) -> (r: Result<(), StoreError>)
    ensures
        if sync_records.len() != grant_count + 1 {
            r matches Err(e) && is_broken(
                e,
                "Agent Workspace pairing requires one sync record per grant and one access-change record"@,
            )
        } else {
            match crate::faults::first_fault(sync_records@, pairing_record_check(folder_id@, owner_npub@)) {
                Some(m) => r matches Err(e) && is_broken(e, m),
                None => if count_type(sync_records@, SyncRecordType::FolderKeyGrant) != grant_count
                    || count_type(sync_records@, SyncRecordType::BrainAdminAccessChange) != 1 {
                    r matches Err(e) && is_broken(e, "Agent Workspace pairing sync record set is incomplete"@)
                } else {
                    r is Ok
                },
            }
        },
{
    if grant_count >= usize::MAX || sync_records.len() != grant_count + 1 {
        return Err(
            broken(
                "Agent Workspace pairing requires one sync record per grant and one access-change record",
            ),
        );
    }
    let ghost check = pairing_record_check(folder_id@, owner_npub@);
    proof {
        crate::faults::lemma_first_fault_start(sync_records@, check);
    }
    let mut grant_records: usize = 0;
    let mut access_changes: usize = 0;
    let mut i: usize = 0;
    while i < sync_records.len()
        invariant
            i <= sync_records.len(),
            check == pairing_record_check(folder_id@, owner_npub@),
            crate::faults::first_fault(sync_records@, check) == crate::faults::first_fault(
                sync_records@.skip(i as int),
                check,
            ),
            grant_records == count_type(sync_records@.take(i as int), SyncRecordType::FolderKeyGrant),
            access_changes == count_type(
                sync_records@.take(i as int),
                SyncRecordType::BrainAdminAccessChange,
            ),
            grant_records <= i,
            access_changes <= i,
            sync_records.len() == grant_count + 1,
        decreases sync_records.len() - i,
    {
        proof {
            crate::faults::lemma_first_fault_step(sync_records@, check, i as int);
            assert(sync_records@.take(i + 1).drop_last() =~= sync_records@.take(i as int));
        }
        match &sync_records[i] {
            SyncRecordInput::Control(c) => {
                let names = match &c.folder_id {
                    Some(f) => str_eq(f.as_str(), folder_id),
                    None => false,
                };
                if !names || !str_eq(c.actor_npub.as_str(), owner_npub) {
                    return Err(
                        broken(
                            "Agent Workspace sync records must be owner-authored for the paired Folder",
                        ),
                    );
                }
                match c.record_type {
                    SyncRecordType::FolderKeyGrant => grant_records += 1,
                    SyncRecordType::BrainAdminAccessChange => access_changes += 1,
                    _ => {
                        return Err(broken("Agent Workspace pairing received an unrelated sync record"));
                    },
                }
            },
            _ => {
                return Err(broken("Agent Workspace pairing only accepts control sync records"));
            },
        }
        i += 1;
    }
    proof {
        crate::faults::lemma_first_fault_end(sync_records@, check);
        assert(sync_records@.take(i as int) =~= sync_records@);
    }
    if grant_records != grant_count || access_changes != 1 {
        return Err(broken("Agent Workspace pairing sync record set is incomplete"));
    }
    Ok(())
}

} // verus!
