use finite_brain_store::admissions::{admission_plan, check_admission_commit, check_admission_stage};
use finite_brain_store::bootstrap::{BootstrapAccountCohort, CohortParticipant};
use finite_brain_store::cohorts::{reconciliation_scope, ReconciliationCommitStep};
use finite_brain_store::collaboration::plan_organization_admin_grants;
use finite_brain_store::reconciliation::{
    build_reconciliation_plan, check_reviewed_reconciliation_commit, pending_invitation_summaries,
    pending_invitation_summary, plan_cohort_reconciliation, reconciliation_review_current, CapacityLimits,
    PendingInvitationRow, ReconciliationPendingInvitation,
};
use finite_brain_store::error::StoreError;
use finite_brain_store::export::CurrentEncryptedObject;
use finite_brain_store::kinds::{BrainKind, FolderAccessMode, FolderRole, SyncRecordType};
use finite_brain_store::folder_ops::validate_create_folder;
use finite_brain_store::member_removal::MemberFolderRotation;
use finite_brain_store::membership::check_add_admin;
use finite_brain_store::model::{
    Brain, BrainMember, Folder, FolderAccessEntry, FolderKeyGrantMetadata, PersonalAgent, StoredBrain,
};
use finite_brain_store::peer_changes::{
    check_peer_restoration, check_peer_restriction, check_restriction_cleared, plan_peer_agent_access,
    AuthenticatedHumanIntentRecord,
};
use finite_brain_store::records::{ControlSyncRecord, FolderObjectRevisionSyncRecord, SyncRecordInput};
use finite_brain_store::shared_removal::check_shared_folder_access_removal;

fn broken(reason: &str) -> StoreError {
    StoreError::BrokenInvariant {
        reason: reason.to_owned(),
    }
}

fn folder(id: &str, access: FolderAccessMode, key_version: u32) -> Folder {
    Folder {
        id: id.to_owned(),
        name: id.to_owned(),
        role: FolderRole::Folder,
        access,
        parent_folder_id: None,
        path: id.to_owned(),
        current_key_version: key_version,
    }
}

fn grant(id: &str, folder_id: &str, key_version: u32, issuer: &str, recipient: &str) -> FolderKeyGrantMetadata {
    FolderKeyGrantMetadata {
        id: id.to_owned(),
        folder_id: folder_id.to_owned(),
        key_version,
        issuer_npub: issuer.to_owned(),
        recipient_npub: recipient.to_owned(),
        format: "NIP-59".to_owned(),
        wrapped_event_json: "{\"kind\":1059}".to_owned(),
        access_change_event_json: None,
        created_at: "2026-06-23T00:00:00.000Z".to_owned(),
    }
}

fn control(kind: SyncRecordType, folder_id: Option<&str>, actor: &str) -> SyncRecordInput {
    SyncRecordInput::Control(ControlSyncRecord {
        record_event_id: format!("evt-{}", folder_id.unwrap_or("brain")),
        record_type: kind,
        folder_id: folder_id.map(|f| f.to_owned()),
        actor_npub: actor.to_owned(),
        client_created_at: "2026-06-23T00:00:00.000Z".to_owned(),
        payload_json: "{}".to_owned(),
        record_event_kind: 30078,
    })
}

fn org() -> StoredBrain {
    StoredBrain {
        brain: Brain {
            id: "acme".to_owned(),
            kind: BrainKind::Organization,
            name: "Acme".to_owned(),
            owner_user_id: None,
            admins: vec!["npub-admin".to_owned()],
            members: vec![BrainMember {
                user_id: "npub-admin".to_owned(),
                folder_access: vec![],
            }],
            folders: vec![
                folder("strategy", FolderAccessMode::Restricted, 2),
                folder("general", FolderAccessMode::AllMembers, 1),
            ],
        },
        personal_agent: None,
        folder_access: vec![FolderAccessEntry {
            folder_id: "strategy".to_owned(),
            user_ids: vec!["npub-guest".to_owned()],
        }],
        grants: vec![grant("g-general-collab", "general", 1, "npub-admin", "npub-collab")],
        setup_incomplete_folder_ids: vec![],
    }
}

fn personal() -> StoredBrain {
    StoredBrain {
        brain: Brain {
            id: "home".to_owned(),
            kind: BrainKind::Personal,
            name: "Home".to_owned(),
            owner_user_id: Some("npub-owner".to_owned()),
            admins: vec![],
            members: vec![],
            folders: vec![
                folder("notes", FolderAccessMode::Owner, 1),
                folder("shared", FolderAccessMode::Restricted, 3),
            ],
        },
        personal_agent: Some(PersonalAgent {
            brain_id: "home".to_owned(),
            owner_npub: "npub-owner".to_owned(),
            agent_npub: "npub-agent-a".to_owned(),
            created_by_npub: "npub-owner".to_owned(),
            created_at: "2026-06-23T00:00:00.000Z".to_owned(),
            updated_at: "2026-06-23T00:00:00.000Z".to_owned(),
        }),
        folder_access: vec![],
        grants: vec![],
        setup_incomplete_folder_ids: vec![],
    }
}

#[test]
fn organization_collaboration_writes_only_missing_state() {
    let stored = org();
    let grants = vec![
        grant("g-strategy-collab", "strategy", 2, "npub-admin", "npub-collab"),
        grant("g-general-collab", "general", 1, "npub-admin", "npub-collab"),
    ];
    let plan = plan_organization_admin_grants(&stored, "npub-collab", &grants, true).unwrap();
    assert!(plan.add_member);
    assert!(plan.add_admin);
    assert!(plan.write_admin_record);
    assert_eq!(plan.write_grant, vec![true, false]);
    assert_eq!(plan.record_folder_access, vec![true, false]);

    let again = plan_organization_admin_grants(&stored, "npub-admin", &vec![], true).unwrap();
    assert!(!again.add_member);
    assert!(!again.add_admin);
    assert!(!again.write_admin_record);
}

#[test]
fn organization_collaboration_rejects_mismatched_grants() {
    let stored = org();
    assert_eq!(
        plan_organization_admin_grants(
            &stored,
            "npub-collab",
            &vec![grant("g1", "strategy", 1, "npub-admin", "npub-collab")],
            false
        ),
        Err(broken("collaboration grant key version must match current Folder key version"))
    );
    assert_eq!(
        plan_organization_admin_grants(
            &stored,
            "npub-collab",
            &vec![grant("g1", "strategy", 2, "npub-admin", "npub-other")],
            false
        ),
        Err(broken("collaboration grant recipient must match target"))
    );
    assert_eq!(
        plan_organization_admin_grants(
            &stored,
            "npub-collab",
            &vec![grant("g1", "missing", 2, "npub-admin", "npub-collab")],
            false
        ),
        Err(StoreError::MissingFolder {
            folder_id: "missing".to_owned()
        })
    );
    assert_eq!(
        plan_organization_admin_grants(
            &stored,
            "npub-collab",
            &vec![grant("g1", "strategy", 2, "npub-stranger", "npub-collab")],
            false
        ),
        Err(broken("organization folder grants must be issued by a brain admin"))
    );
    assert_eq!(
        plan_organization_admin_grants(&personal(), "npub-collab", &vec![], false),
        Err(broken("organization collaboration requires an organization brain"))
    );
}

fn restrict_intent(operation: &str) -> AuthenticatedHumanIntentRecord {
    AuthenticatedHumanIntentRecord {
        human_npub: "npub-owner".to_owned(),
        acting_agent_npub: "npub-agent-a".to_owned(),
        target_agent_npub: "npub-agent-b".to_owned(),
        operation: operation.to_owned(),
        scope_kind: "brain".to_owned(),
        folder_id: None,
    }
}

fn ready() -> Vec<String> {
    vec!["npub-agent-a".to_owned(), "npub-agent-b".to_owned()]
}

fn live_object(folder_id: &str, object_id: &str, revision: u64) -> CurrentEncryptedObject {
    CurrentEncryptedObject {
        folder_id: folder_id.to_owned(),
        object_id: object_id.to_owned(),
        payload_json: "{}".to_owned(),
        revision,
        updated_at: "2026-06-23T00:00:00.000Z".to_owned(),
        deleted: false,
    }
}

fn reencrypted(folder_id: &str, object_id: &str, revision: u64) -> FolderObjectRevisionSyncRecord {
    FolderObjectRevisionSyncRecord {
        record_event_id: format!("evt-{object_id}"),
        folder_id: folder_id.to_owned(),
        object_id: object_id.to_owned(),
        revision: revision + 1,
        base_revision: Some(revision),
        actor_npub: "npub-agent-a".to_owned(),
        client_created_at: "2026-06-23T00:00:00.000Z".to_owned(),
        payload_json: "{}".to_owned(),
        record_event_kind: 30078,
    }
}

#[test]
fn peer_restriction_plans_and_checks_every_folder_rotation() {
    let stored = personal();
    let required = vec![
        vec!["npub-owner".to_owned(), "npub-agent-a".to_owned()],
        vec!["npub-owner".to_owned()],
    ];
    let plan = plan_peer_agent_access(
        &stored,
        &ready(),
        false,
        &Some("owner@finite.vip".to_owned()),
        "npub-agent-b",
        "restrict",
        "npub-agent-a",
        &required,
    )
    .unwrap();
    assert_eq!(plan.folders.len(), 2);
    assert_eq!(plan.folders[0].new_key_version, 2);
    assert_eq!(plan.folders[1].new_key_version, 4);
    assert_eq!(plan.human_npub, "npub-owner");

    let rotations = vec![
        MemberFolderRotation {
            folder_id: "notes".to_owned(),
            new_key_version: 2,
            grants: vec![
                grant("g-notes-owner", "notes", 2, "npub-agent-a", "npub-owner"),
                grant("g-notes-agent", "notes", 2, "npub-agent-a", "npub-agent-a"),
            ],
            reencrypted_records: vec![reencrypted("notes", "obj-1", 4)],
        },
        MemberFolderRotation {
            folder_id: "shared".to_owned(),
            new_key_version: 4,
            grants: vec![grant("g-shared-owner", "shared", 4, "npub-agent-a", "npub-owner")],
            reencrypted_records: vec![],
        },
    ];
    let objects = vec![live_object("notes", "obj-1", 4)];
    let controls = vec![
        control(SyncRecordType::FolderKeyGrant, Some("notes"), "npub-agent-a"),
        control(SyncRecordType::FolderKeyGrant, Some("notes"), "npub-agent-a"),
        control(SyncRecordType::FolderKeyGrant, Some("shared"), "npub-agent-a"),
        control(SyncRecordType::BrainAdminAccessChange, None, "npub-agent-a"),
    ];
    let cohorts = vec!["cohort-1".to_owned()];
    assert_eq!(
        check_peer_restriction(
            &stored,
            &plan,
            &restrict_intent("restrict"),
            "npub-agent-a",
            &rotations,
            &controls,
            &objects,
            &cohorts
        ),
        Ok(())
    );
    assert_eq!(
        check_peer_restriction(
            &stored,
            &plan,
            &restrict_intent("restore"),
            "npub-agent-a",
            &rotations,
            &controls,
            &objects,
            &cohorts
        ),
        Err(broken("Authenticated Human Intent does not authorize this Brain restriction"))
    );
    assert_eq!(
        check_peer_restriction(
            &stored,
            &plan,
            &restrict_intent("restrict"),
            "npub-agent-a",
            &rotations[..1].to_vec(),
            &controls,
            &objects,
            &cohorts
        ),
        Err(broken("peer Agent Brain restriction requires every Folder rotation"))
    );
    assert_eq!(
        check_peer_restriction(
            &stored,
            &plan,
            &restrict_intent("restrict"),
            "npub-agent-a",
            &rotations,
            &controls,
            &vec![],
            &cohorts
        ),
        Err(broken("folder key rotation must re-encrypt every live object exactly once"))
    );
    assert_eq!(
        check_peer_restriction(
            &stored,
            &plan,
            &restrict_intent("restrict"),
            "npub-agent-a",
            &rotations,
            &controls,
            &objects,
            &vec![]
        ),
        Err(broken("peer Agent has no active Personal Brain cohort"))
    );
    let mut wrong = rotations.clone();
    wrong[1].grants = vec![grant("g-shared-b", "shared", 4, "npub-agent-a", "npub-agent-b")];
    assert_eq!(
        check_peer_restriction(
            &stored,
            &plan,
            &restrict_intent("restrict"),
            "npub-agent-a",
            &wrong,
            &controls,
            &objects,
            &cohorts
        ),
        Err(broken("peer Agent Brain restriction grants do not match the plan"))
    );
}

#[test]
fn peer_access_changes_refuse_invalid_requests() {
    let stored = personal();
    let required = vec![vec![], vec![]];
    let email = Some("owner@finite.vip".to_owned());
    assert_eq!(
        plan_peer_agent_access(&stored, &ready(), false, &email, "npub-agent-a", "restrict", "npub-agent-a", &required),
        Err(broken("peer Agent Brain access operation is invalid"))
    );
    assert_eq!(
        plan_peer_agent_access(&stored, &ready(), false, &email, "npub-agent-b", "pause", "npub-agent-a", &required),
        Err(broken("peer Agent Brain access operation is invalid"))
    );
    assert_eq!(
        plan_peer_agent_access(&stored, &ready(), true, &email, "npub-agent-b", "restrict", "npub-agent-a", &required),
        Err(broken("peer Agent Brain access is already restricted"))
    );
    assert_eq!(
        plan_peer_agent_access(&stored, &ready(), false, &None, "npub-agent-b", "restrict", "npub-agent-a", &required),
        Err(broken("Personal Brain account cohort is missing"))
    );
}

#[test]
fn peer_restoration_regrants_every_folder_at_its_current_key() {
    let stored = personal();
    let required = vec![vec![], vec![]];
    let plan = plan_peer_agent_access(
        &stored,
        &ready(),
        true,
        &Some("owner@finite.vip".to_owned()),
        "npub-agent-b",
        "restore",
        "npub-agent-a",
        &required,
    )
    .unwrap();
    assert_eq!(plan.folders[1].new_key_version, 3);
    assert_eq!(plan.folders[1].required_recipient_npubs, vec!["npub-agent-b".to_owned()]);
    let grants = vec![
        grant("g-notes-b", "notes", 1, "npub-agent-a", "npub-agent-b"),
        grant("g-shared-b", "shared", 3, "npub-agent-a", "npub-agent-b"),
    ];
    let controls = vec![
        control(SyncRecordType::FolderKeyGrant, Some("notes"), "npub-agent-a"),
        control(SyncRecordType::FolderKeyGrant, Some("shared"), "npub-agent-a"),
        control(SyncRecordType::BrainAdminAccessChange, None, "npub-agent-a"),
    ];
    assert_eq!(
        check_peer_restoration(&stored, &plan, &restrict_intent("restore"), "npub-agent-a", &grants, &controls),
        Ok(())
    );
    let stale = vec![
        grant("g-notes-b", "notes", 1, "npub-agent-a", "npub-agent-b"),
        grant("g-shared-b", "shared", 2, "npub-agent-a", "npub-agent-b"),
    ];
    assert_eq!(
        check_peer_restoration(&stored, &plan, &restrict_intent("restore"), "npub-agent-a", &stale, &controls),
        Err(broken("peer Agent Brain restoration grant is invalid"))
    );
    assert_eq!(
        check_peer_restoration(&stored, &plan, &restrict_intent("restore"), "npub-agent-a", &grants[..1].to_vec(), &controls),
        Err(broken("peer Agent Brain restoration requires one current grant per Folder"))
    );
    assert_eq!(
        check_peer_restoration(&stored, &plan, &restrict_intent("restore"), "npub-agent-a", &grants, &controls[..2].to_vec()),
        Err(broken("peer Agent access change requires grant controls and one access-change control"))
    );
}

fn roster() -> BootstrapAccountCohort {
    let participant = |npub: &str, relationship: &str| CohortParticipant {
        npub: npub.to_owned(),
        relationship: relationship.to_owned(),
        nip05: format!("{npub}@finite.vip"),
        name: npub.to_owned(),
    };
    BootstrapAccountCohort {
        account_id: "account".to_owned(),
        human_email: "owner@finite.vip".to_owned(),
        roster_revision: 5,
        participants: vec![
            participant("npub-owner", "human"),
            participant("npub-agent-a", "account_agent"),
            participant("npub-agent-b", "account_agent"),
        ],
    }
}

#[test]
fn agent_admission_stages_only_waiting_agents() {
    let stored = personal();
    let cohort = roster();
    assert_eq!(check_admission_stage(&stored, &cohort, Some("cohort-1")), Ok(()));
    assert_eq!(
        check_admission_stage(&stored, &cohort, None),
        Err(broken("Personal Brain has no reconciled account cohort"))
    );
    let mut stranger = roster();
    stranger.participants[0].npub = "npub-someone".to_owned();
    assert_eq!(
        check_admission_stage(&stored, &stranger, Some("cohort-1")),
        Err(broken("Personal Brain roster human does not match its owner"))
    );
    assert_eq!(
        check_admission_stage(&org(), &cohort, Some("cohort-1")),
        Err(broken("Personal Brain agent admission requires a Personal Brain"))
    );
    let statuses = vec![None, Some("ready".to_owned()), Some("desired".to_owned())];
    let plan = admission_plan(&stored, &cohort, "cohort-1", &statuses);
    assert_eq!(plan.agents.len(), 1);
    assert_eq!(plan.agents[0].npub, "npub-agent-b");
    assert_eq!(
        plan.folder_key_versions,
        vec![("notes".to_owned(), 1), ("shared".to_owned(), 3)]
    );

    let grants = vec![
        grant("g-notes-b", "notes", 1, "npub-owner", "npub-agent-b"),
        grant("g-shared-b", "shared", 3, "npub-owner", "npub-agent-b"),
    ];
    let controls = vec![
        control(SyncRecordType::FolderKeyGrant, Some("notes"), "npub-owner"),
        control(SyncRecordType::FolderKeyGrant, Some("shared"), "npub-owner"),
    ];
    let statuses = vec!["desired".to_owned()];
    assert_eq!(
        check_admission_commit(&stored, &plan, "npub-owner", &grants, &controls, &statuses),
        Ok(())
    );
    assert_eq!(
        check_admission_commit(&stored, &plan, "npub-owner", &grants[..1].to_vec(), &controls, &statuses),
        Err(broken("Personal Brain admission grants must cover every planned agent and current Folder"))
    );
    assert_eq!(
        check_admission_commit(&stored, &plan, "npub-stranger", &grants, &controls, &statuses),
        Err(broken("Personal Brain agent admission requires operational authority"))
    );
    assert_eq!(
        check_admission_commit(&stored, &plan, "npub-agent-a", &grants, &controls, &statuses),
        Err(broken("Personal Brain admission grant issuer must be the acting reader"))
    );
    assert_eq!(
        check_admission_commit(&stored, &plan, "npub-owner", &grants, &controls, &vec!["revoked".to_owned()]),
        Err(broken("revoked Personal Brain agents require explicit restoration"))
    );
}

#[test]
fn shared_folder_access_removal_rotates_for_remaining_recipients() {
    let stored = org();
    let removed = vec!["npub-guest".to_owned()];
    let required = vec!["npub-admin".to_owned()];
    let grants = vec![grant("g-strategy-3", "strategy", 3, "npub-admin", "npub-admin")];
    let controls = vec![control(SyncRecordType::FolderKeyGrant, Some("strategy"), "npub-admin")];
    assert_eq!(
        check_shared_folder_access_removal(
            &stored, "strategy", "npub-admin", &removed, 3, &required, &grants, &controls, &vec![], &vec![]
        ),
        Ok(())
    );
    assert_eq!(
        check_shared_folder_access_removal(
            &stored, "strategy", "npub-admin", &vec![], 3, &required, &grants, &controls, &vec![], &vec![]
        ),
        Err(broken("shared folder access removal requires at least one target"))
    );
    assert_eq!(
        check_shared_folder_access_removal(
            &stored, "strategy", "npub-admin", &removed, 4, &required, &grants, &controls, &vec![], &vec![]
        ),
        Err(broken("shared folder access removal must rotate to the next key version"))
    );
    assert_eq!(
        check_shared_folder_access_removal(
            &stored,
            "strategy",
            "npub-admin",
            &vec!["npub-nobody".to_owned()],
            3,
            &required,
            &grants,
            &controls,
            &vec![],
            &vec![]
        ),
        Err(broken("shared folder removal target does not currently have access"))
    );
    assert_eq!(
        check_shared_folder_access_removal(
            &stored,
            "strategy",
            "npub-admin",
            &removed,
            3,
            &vec!["npub-admin".to_owned(), "npub-guest".to_owned()],
            &grants,
            &controls,
            &vec![],
            &vec![]
        ),
        Err(broken("connection rotation grants must exactly match remaining recipients"))
    );
}

#[test]
fn restoration_must_clear_an_active_restriction() {
    assert_eq!(
        check_restriction_cleared(0),
        Err(broken("peer Agent Brain restriction was already cleared"))
    );
    assert_eq!(check_restriction_cleared(2), Ok(()));
}

fn reconciliation_cohort() -> BootstrapAccountCohort {
    let participant = |npub: &str, relationship: &str| CohortParticipant {
        npub: npub.to_owned(),
        relationship: relationship.to_owned(),
        nip05: format!("{npub}@finite.vip"),
        name: npub.to_owned(),
    };
    BootstrapAccountCohort {
        account_id: "account".to_owned(),
        human_email: "  Admin@Finite.VIP ".to_owned(),
        roster_revision: 3,
        participants: vec![
            participant("npub-admin", "human"),
            participant("npub-agent-a", "account_agent"),
        ],
    }
}

fn limits(members: usize) -> CapacityLimits {
    CapacityLimits {
        members,
        folder_access_entries: 100,
        folder_key_grants: 100,
        sync_records: 100,
    }
}

#[test]
fn reconciliation_plan_counts_missing_grants_and_capacity() {
    let stored = org();
    let cohort = reconciliation_cohort();
    let scope = reconciliation_scope(&stored, &cohort, None, "npub-admin").unwrap();
    let plan = build_reconciliation_plan(&stored, &cohort, &scope, false, 10, limits(10), vec![]);
    assert_eq!(plan.human_email, "admin@finite.vip");
    assert_eq!(plan.folder_id, None);
    // The admin reads both Folders; no participant holds a current grant.
    assert_eq!(plan.folders.len(), 2);
    assert_eq!(plan.folders[0].folder_id, "strategy");
    assert_eq!(plan.folders[0].missing_grant_recipient_npubs.len(), 2);
    assert_eq!(plan.expected_member_additions, vec!["npub-agent-a".to_owned()]);
    assert!(plan.independent_agent_npubs.is_empty());
    assert_eq!(plan.capacity.members_after, 2);
    assert_eq!(plan.capacity.folder_access_entries_after, 1);
    assert_eq!(plan.capacity.folder_key_grants_after, 5);
    assert_eq!(plan.capacity.sync_records_after, 15);
    assert_eq!(plan.blocker, None);

    let tight = build_reconciliation_plan(&stored, &cohort, &scope, false, 10, limits(1), vec![]);
    assert_eq!(tight.blocker, Some("capacity_exceeded".to_owned()));
    let again = build_reconciliation_plan(&stored, &cohort, &scope, true, 10, limits(10), vec![]);
    assert_eq!(again.blocker, Some("already_reconciled".to_owned()));

    assert!(reconciliation_review_current(&plan, &plan));
    assert!(!reconciliation_review_current(&plan, &tight));
    let mut reviewed = plan.clone();
    reviewed.operation_id = "op-1".to_owned();
    assert!(reconciliation_review_current(&plan, &reviewed));
    let mut stale = reviewed.clone();
    stale.folders[0].key_version = 1;
    assert!(!reconciliation_review_current(&plan, &stale));
    assert_eq!(
        check_reviewed_reconciliation_commit(&stored, &stale, &plan, "backup-1", false, "npub-admin", &vec![], &vec![]),
        Err(broken("reconciliation plan is stale or blocked"))
    );
    assert_eq!(
        check_reviewed_reconciliation_commit(&stored, &reviewed, &plan, "backup-1", true, "npub-admin", &vec![], &vec![]),
        Ok(ReconciliationCommitStep::AlreadyCommitted)
    );
}

#[test]
fn folder_only_reconciliation_counts_access_additions() {
    let stored = org();
    let mut cohort = reconciliation_cohort();
    cohort.participants[0].npub = "npub-guest".to_owned();
    let scope = reconciliation_scope(&stored, &cohort, Some("strategy"), "npub-admin").unwrap();
    let plan = build_reconciliation_plan(&stored, &cohort, &scope, false, 0, limits(10), vec![]);
    assert_eq!(plan.folder_id, Some("strategy".to_owned()));
    assert_eq!(plan.folders.len(), 1);
    assert!(plan.expected_member_additions.is_empty());
    assert_eq!(plan.capacity.folder_access_entries_after, 2);
    assert_eq!(plan.capacity.members_after, 1);
}

#[test]
fn rejects_invalid_hierarchy_duplicate_ids_and_admin_invariants() {
    let brain = org().brain;
    let required = vec!["npub-admin".to_owned()];

    let mut missing_parent = folder("plans", FolderAccessMode::AllMembers, 1);
    missing_parent.parent_folder_id = Some("missing".to_owned());
    missing_parent.path = "Missing/Plans".to_owned();
    assert_eq!(
        validate_create_folder(
            &brain,
            &missing_parent,
            &vec![],
            &vec![grant("grant-missing-parent", "plans", 1, "npub-admin", "npub-admin")],
            &required,
            false,
            None,
        ),
        Err(StoreError::MissingFolder {
            folder_id: "missing".to_owned()
        })
    );

    let existing = folder("strategy", FolderAccessMode::AllMembers, 1);
    assert_eq!(
        validate_create_folder(
            &brain,
            &existing,
            &vec![],
            &vec![grant("grant-strategy-admin-2", "strategy", 1, "npub-admin", "npub-admin")],
            &required,
            false,
            None,
        ),
        Err(StoreError::DuplicateId {
            field: "folder_id",
            value: "strategy".to_owned()
        })
    );

    assert_eq!(
        check_add_admin(&brain, "npub-non-member"),
        Err(broken("brain admin must already be a brain member"))
    );

    let bad_issuer = folder("bad-issuer-strategy", FolderAccessMode::AllMembers, 1);
    assert_eq!(
        validate_create_folder(
            &brain,
            &bad_issuer,
            &vec![],
            &vec![grant("grant-bad-issuer", "bad-issuer-strategy", 1, "npub-non-admin", "npub-admin")],
            &required,
            false,
            None,
        ),
        Err(broken("organization folder grants must be issued by a brain admin"))
    );
    let fine = folder("fresh", FolderAccessMode::AllMembers, 1);
    assert_eq!(
        validate_create_folder(
            &brain,
            &fine,
            &vec![],
            &vec![grant("grant-fresh-admin", "fresh", 1, "npub-admin", "npub-admin")],
            &required,
            false,
            None,
        ),
        Ok(())
    );
}

fn pending_row(id: &str, target_kind: &str, folder_only: bool, scope: &str) -> PendingInvitationRow {
    PendingInvitationRow {
        id: id.to_owned(),
        target_kind: target_kind.to_owned(),
        folder_only,
        initial_folder_access_json: scope.to_owned(),
        expires_at: "2026-07-01T00:00:00.000Z".to_owned(),
    }
}

#[test]
fn pending_invitation_summaries_name_scope_folder_and_conversion() {
    assert_eq!(
        pending_invitation_summary("inv-1", "email_bootstrap", true, r#"["strategy","general"]"#, "2026-07-01T00:00:00.000Z"),
        Ok(ReconciliationPendingInvitation {
            invitation_id: "inv-1".to_owned(),
            target_kind: "email_bootstrap".to_owned(),
            scope_kind: "folder".to_owned(),
            folder_id: Some("strategy".to_owned()),
            expires_at: "2026-07-01T00:00:00.000Z".to_owned(),
            conversion_required: true,
        })
    );
    assert_eq!(
        pending_invitation_summary("inv-2", "npub", false, r#"["strategy"]"#, "2026-07-01T00:00:00.000Z"),
        Ok(ReconciliationPendingInvitation {
            invitation_id: "inv-2".to_owned(),
            target_kind: "npub".to_owned(),
            scope_kind: "brain".to_owned(),
            folder_id: None,
            expires_at: "2026-07-01T00:00:00.000Z".to_owned(),
            conversion_required: false,
        })
    );
    // A Folder-only invitation with an empty scope names no Folder.
    assert_eq!(
        pending_invitation_summary("inv-3", "npub", true, "[]", "2026-07-01T00:00:00.000Z")
            .unwrap()
            .folder_id,
        None
    );
    assert!(matches!(
        pending_invitation_summary("inv-4", "npub", true, "not json", "2026-07-01T00:00:00.000Z"),
        Err(StoreError::Database { .. })
    ));

    let rows = vec![
        pending_row("inv-1", "npub", false, "[]"),
        pending_row("inv-2", "email_bootstrap", true, r#"["general"]"#),
    ];
    let summaries = pending_invitation_summaries(&rows).unwrap();
    assert_eq!(summaries.len(), 2);
    assert_eq!(summaries[1].folder_id, Some("general".to_owned()));
    assert!(summaries[1].conversion_required);
    let broken_rows = vec![pending_row("inv-1", "npub", false, "[]"), pending_row("inv-2", "npub", true, "{")];
    assert!(matches!(pending_invitation_summaries(&broken_rows), Err(StoreError::Database { .. })));
}

#[test]
fn reconciliation_review_goes_stale_when_pending_invitations_change() {
    let stored = org();
    let cohort = reconciliation_cohort();
    let scope = reconciliation_scope(&stored, &cohort, None, "npub-admin").unwrap();
    let rows = vec![pending_row("inv-1", "email_bootstrap", true, r#"["strategy"]"#)];
    let plan = plan_cohort_reconciliation(&stored, &cohort, &scope, false, 10, limits(10), &rows).unwrap();
    assert_eq!(plan.pending_invitations.len(), 1);
    assert_eq!(plan.pending_invitations[0].folder_id, Some("strategy".to_owned()));
    assert_eq!(plan.blocker, None);

    let mut reviewed = plan.clone();
    reviewed.operation_id = "op-1".to_owned();
    assert!(reconciliation_review_current(&plan, &reviewed));

    // The invitation was accepted or revoked after the review: the fresh
    // plan no longer lists it, so the reviewed plan is stale.
    let fresh = plan_cohort_reconciliation(&stored, &cohort, &scope, false, 10, limits(10), &vec![]).unwrap();
    assert!(!reconciliation_review_current(&fresh, &reviewed));
    assert_eq!(
        check_reviewed_reconciliation_commit(&stored, &reviewed, &fresh, "backup-1", false, "npub-admin", &vec![], &vec![]),
        Err(broken("reconciliation plan is stale or blocked"))
    );

    // A stored invitation scope that is not a JSON array fails the plan.
    let malformed = vec![pending_row("inv-1", "npub", true, "strategy")];
    assert!(matches!(
        plan_cohort_reconciliation(&stored, &cohort, &scope, false, 10, limits(10), &malformed),
        Err(StoreError::Database { .. })
    ));
}
