use finite_brain_store::access::visible_brain_from_row;
use finite_brain_store::bootstrap::organization_bootstrap_existing;
use finite_brain_store::cohorts::{check_permanent_agent_departure, PermanentAgentDepartureStep};
use finite_brain_store::columns::{
    delegation_scope_folder_ids, nip05_relays_from_json, nip05_relays_json, stored_folder_ids,
};
use finite_brain_store::crate_name;
use finite_brain_store::db_errors::{parse_capacity_error, store_error_from_database};
use finite_brain_store::deletion::{
    begin_folder_deletion, deletion_replay_record, deletion_work, duplicate_deletion, fresh_deletion,
    folder_deletion_payload, folder_id_vec_json, invitations_in_subtree, FolderDeletionExpectation, FolderDeletionReplay,
    FolderDeletionStep, PendingInvitationScope,
};
use finite_brain_store::departure::{
    applied_departure_outcome, check_departure_fact, departure_affected_brains, departure_noop, mark_departure_pending_rotation,
    next_departure_cursor, revocation_id, DepartureFactApplication, DeparturePendingRotation,
    DepartureRevocationPlan,
};
use finite_brain_store::error::StoreError;
use finite_brain_store::export::CurrentEncryptedObject;
use finite_brain_store::kinds::{
    BrainKind, DeparturePrincipalKind, FolderAccessMode, FolderRole, LinkStatus, ProvenanceOriginKind,
    VisibleBrainRole,
};
use finite_brain_store::links::{
    canonical_invited_email, parsed_instants_expired, timestamp_expired, validate_bounded_offer_expiry,
    validate_invite_token_hash, validate_link_id, validate_link_timestamp, validate_required_text,
};
use finite_brain_store::membership::{check_add_admin, check_remove_admin, check_remove_member};
use finite_brain_store::model::{Brain, BrainMember, Folder, StoredBrain};

fn folder(id: &str, parent: Option<&str>, key_version: u32) -> Folder {
    Folder {
        id: id.to_owned(),
        name: id.to_owned(),
        role: FolderRole::Folder,
        access: FolderAccessMode::AllMembers,
        parent_folder_id: parent.map(|p| p.to_owned()),
        path: id.to_owned(),
        current_key_version: key_version,
    }
}

fn acme() -> StoredBrain {
    StoredBrain {
        brain: Brain {
            id: "acme".to_owned(),
            kind: BrainKind::Organization,
            name: "Acme".to_owned(),
            owner_user_id: None,
            admins: vec!["npub-admin".to_owned()],
            members: vec![BrainMember {
                user_id: "npub-member".to_owned(),
                folder_access: vec![],
            }],
            folders: vec![
                folder("strategy", None, 1),
                folder("plans", Some("strategy"), 1),
                folder("q3", Some("plans"), 2),
                folder("other", None, 1),
            ],
        },
        personal_agent: None,
        folder_access: vec![],
        grants: vec![],
        setup_incomplete_folder_ids: vec![],
    }
}

fn object(folder_id: &str, object_id: &str, deleted: bool) -> CurrentEncryptedObject {
    CurrentEncryptedObject {
        folder_id: folder_id.to_owned(),
        object_id: object_id.to_owned(),
        payload_json: "{}".to_owned(),
        revision: 1,
        updated_at: "2026-06-23T00:00:00.000Z".to_owned(),
        deleted,
    }
}

fn objects() -> Vec<CurrentEncryptedObject> {
    vec![
        object("plans", "obj-plans", false),
        object("q3", "obj-q3", true),
        object("other", "obj-other", false),
    ]
}

fn broken(reason: &str) -> StoreError {
    StoreError::BrokenInvariant {
        reason: reason.to_owned(),
    }
}

#[test]
fn exposes_store_crate_name() {
    assert_eq!(crate_name(), "finite-brain-store");
}

#[test]
fn invitation_expiry_compares_rfc3339_instants_not_text() {
    assert!(timestamp_expired(
        "2026-08-01T00:00:00+05:00",
        "2026-07-31T20:00:00Z"
    ));
    assert!(timestamp_expired(
        "2026-07-31T19:00:00.000Z",
        "2026-07-31T19:00:00Z"
    ));
    assert!(!timestamp_expired(
        "2026-07-31T19:00:00.001Z",
        "2026-07-31T19:00:00Z"
    ));
}

#[test]
fn empty_expiry_never_expires_and_unparseable_expiry_fails_closed() {
    assert!(!timestamp_expired("", "2026-07-31T19:00:00Z"));
    assert!(timestamp_expired("not a time", "2026-07-31T19:00:00Z"));
    assert!(timestamp_expired("2026-07-31T19:00:00Z", "yesterday"));
}

#[test]
fn parsed_instants_decide_expiry() {
    assert!(parsed_instants_expired(Some(5), Some(5)));
    assert!(parsed_instants_expired(Some(4), Some(5)));
    assert!(!parsed_instants_expired(Some(6), Some(5)));
    assert!(parsed_instants_expired(None, Some(5)));
    assert!(parsed_instants_expired(Some(5), None));
}

#[test]
fn departure_fact_cursor_starts_at_zero_and_consumes_unresolved_facts() {
    let fact = |revision: i64| DepartureFactApplication {
        fact_revision: revision,
        account_id: "account".to_owned(),
        principal_kind: DeparturePrincipalKind::Agent,
        principal_ref: "gone@finite.vip".to_owned(),
        departed_npub: None,
        applied_at: "2026-06-23T00:00:00.000Z".to_owned(),
    };
    let cursor: i64 = 0;
    // An unresolved fact (no departed npub) is applied: no Brain is planned,
    // so it revokes nothing and affects no Brain, and the cursor moves to
    // its revision.
    let unresolved = fact(7);
    assert_eq!(check_departure_fact(&unresolved, cursor), Ok(true));
    assert!(unresolved.departed_npub.is_none());
    let outcome = applied_departure_outcome(&Vec::new(), &Vec::new());
    assert!(outcome.applied);
    assert_eq!(outcome.revocations, 0);
    assert!(outcome.affected_brain_ids.is_empty());
    let cursor = next_departure_cursor(cursor, unresolved.fact_revision);
    assert_eq!(cursor, 7);

    // Replaying the same or an older revision is a no-op.
    for revision in [7, 3] {
        assert_eq!(check_departure_fact(&fact(revision), cursor), Ok(false));
        let noop = departure_noop();
        assert!(!noop.applied);
        assert_eq!(noop.revocations, 0);
        assert_eq!(next_departure_cursor(cursor, revision), 7);
    }
}

#[test]
fn departure_fact_rejects_malformed_revisions_without_advancing_cursor() {
    let fact = |revision: i64, principal: &str| DepartureFactApplication {
        fact_revision: revision,
        account_id: "account".to_owned(),
        principal_kind: DeparturePrincipalKind::Agent,
        principal_ref: principal.to_owned(),
        departed_npub: Some("npub-member".to_owned()),
        applied_at: "2026-06-23T00:00:00.000Z".to_owned(),
    };
    let mut cursor: i64 = 0;
    for (revision, principal, reason) in [
        (0, "agent@finite.vip", "departure fact revision must be positive"),
        (-2, "agent@finite.vip", "departure fact revision must be positive"),
        (1, "  ", "departure fact principal reference is required"),
    ] {
        let application = fact(revision, principal);
        let decided = check_departure_fact(&application, cursor);
        assert_eq!(decided, Err(broken(reason)));
        // The cursor moves only past a fact that was accepted.
        if decided.is_ok() {
            cursor = next_departure_cursor(cursor, application.fact_revision);
        }
    }
    assert_eq!(cursor, 0);
}

#[test]
fn departure_origin_and_revocation_ids_are_deterministic() {
    let fact = DepartureFactApplication {
        fact_revision: 7,
        account_id: "account".to_owned(),
        principal_kind: DeparturePrincipalKind::Human,
        principal_ref: "gone@finite.vip".to_owned(),
        departed_npub: None,
        applied_at: "2026-06-23T00:00:00.000Z".to_owned(),
    };
    assert_eq!(fact.origin_ref(), "core-departure-fact:7");
    assert_eq!(revocation_id(12, "acme"), "departure-12-acme");
    assert_eq!(revocation_id(-3, "b"), "departure--3-b");
}

#[test]
fn departure_marker_is_upserted_per_folder() {
    let mut markers: Vec<DeparturePendingRotation> = Vec::new();
    mark_departure_pending_rotation(&mut markers, "acme", "strategy", 1, 3);
    mark_departure_pending_rotation(&mut markers, "acme", "plans", 2, 3);
    mark_departure_pending_rotation(&mut markers, "acme", "strategy", 4, 9);
    assert_eq!(markers.len(), 2);
    let strategy = markers
        .iter()
        .find(|m| m.folder_id == "strategy")
        .unwrap();
    assert_eq!(strategy.key_version, 4);
    assert_eq!(strategy.marked_at_revision, 9);
    let plans = markers.iter().find(|m| m.folder_id == "plans").unwrap();
    assert_eq!(plans.key_version, 2);
}

#[test]
fn capacity_failures_name_their_limit() {
    assert_eq!(
        parse_capacity_error("constraint failed: finite_capacity:brain_folders:512 exceeded"),
        Some(("brain_folders".to_owned(), 512))
    );
    assert_eq!(parse_capacity_error("UNIQUE constraint failed: brains.id"), None);
    assert_eq!(parse_capacity_error("finite_capacity:brain_folders:many"), None);
    assert_eq!(
        store_error_from_database("finite_capacity:folder_depth:32"),
        StoreError::CapacityExceeded {
            limit: "folder_depth".to_owned(),
            max: 32,
            current: 33
        }
    );
    assert_eq!(
        store_error_from_database("disk I/O error"),
        StoreError::Database {
            message: "disk I/O error".to_owned()
        }
    );
}

#[test]
fn store_errors_render_their_messages() {
    assert_eq!(
        StoreError::CapacityExceeded {
            limit: "brain_folders".to_owned(),
            max: 3,
            current: 4
        }
        .message(),
        "capacity exceeded for brain_folders: current 4, maximum 3"
    );
    assert_eq!(
        StoreError::Conflict {
            reason: "stale".to_owned(),
            current_revision: Some(12)
        }
        .message(),
        "sync conflict: stale; current revision: Some(12)"
    );
    assert_eq!(
        StoreError::Conflict {
            reason: "stale".to_owned(),
            current_revision: None
        }
        .message(),
        "sync conflict: stale; current revision: None"
    );
    assert_eq!(
        StoreError::UnavailableLink {
            kind: "Folder Invitation"
        }
        .message(),
        "Folder Invitation unavailable"
    );
    assert_eq!(
        broken("x").message(),
        "broken invariant: x"
    );
    assert_eq!(
        StoreError::RebootstrapRequired { retention_floor: 40 }.message(),
        "rebootstrap required from retention floor 40"
    );
}

#[test]
fn invited_emails_are_trimmed_and_lowered() {
    assert_eq!(
        canonical_invited_email("  Alice@Example.COM \n"),
        Ok("alice@example.com".to_owned())
    );
    // Only ASCII letters change case; other characters are kept as they are.
    assert_eq!(
        canonical_invited_email("ÉLODIE.Zoë@Exämple.ORG"),
        Ok("Élodie.zoë@exämple.org".to_owned())
    );
    assert_eq!(
        canonical_invited_email("alice.example.com"),
        Err(broken("invited email must be an email address"))
    );
    assert_eq!(
        canonical_invited_email("@example.com"),
        Err(broken("invited email must be a printable email address"))
    );
    assert_eq!(
        canonical_invited_email("alice@"),
        Err(broken("invited email must be a printable email address"))
    );
    assert_eq!(
        canonical_invited_email("al\u{7}ice@example.com"),
        Err(broken("invited email must be a printable email address"))
    );
    let long = format!("{}@example.com", "a".repeat(320));
    assert_eq!(
        canonical_invited_email(&long),
        Err(broken("invited email must be a printable email address"))
    );
}

#[test]
fn canonical_email_is_stable_under_a_second_pass() {
    let first = canonical_invited_email("  Bob@Finite.VIP ").unwrap();
    let again = canonical_invited_email(&first).unwrap();
    assert_eq!(first, again);
}

#[test]
fn link_timestamps_must_be_rfc3339() {
    assert_eq!(
        validate_link_timestamp("expiresAt", "not-a-timestamp"),
        Err(broken("expiresAt must be an RFC3339 timestamp"))
    );
    assert_eq!(
        validate_link_timestamp("expiresAt", "2026-06-23T00:00:00.000Z"),
        Ok(())
    );
}

#[test]
fn admin_removal_keeps_an_admin_and_member_removal_needs_no_admin_role() {
    let mut brain = acme().brain;
    // The member becomes an admin, then gives the role back.
    assert_eq!(check_add_admin(&brain, "npub-member"), Ok(()));
    brain.admins.push("npub-member".to_owned());
    assert_eq!(
        check_remove_member(&brain, "npub-member", false),
        Err(broken("remove admin role before removing member"))
    );
    assert_eq!(check_remove_admin(&brain, "npub-member"), Ok(()));
    brain.admins.retain(|a| a != "npub-member");
    // The sole remaining admin cannot be removed.
    assert_eq!(
        check_remove_admin(&brain, "npub-admin"),
        Err(broken("organization brain must keep at least one admin"))
    );
    assert_eq!(check_remove_member(&brain, "npub-member", false), Ok(()));
    assert_eq!(
        check_remove_member(&brain, "npub-stranger", false),
        Err(broken("brain member does not exist"))
    );
}

#[test]
fn link_texts_are_validated() {
    assert_eq!(validate_required_text("name", "Acme"), Ok(()));
    assert!(validate_required_text("name", "   ").is_err());
    assert_eq!(validate_link_id("invitationId", "invite-1"), Ok(()));
    assert_eq!(
        validate_link_id("invitationId", "bad\tid"),
        Err(broken("invitationId must be non-empty and printable"))
    );
    assert_eq!(
        validate_link_timestamp("createdAt", "2026-06-23T00:00:00.000Z"),
        Ok(())
    );
    assert_eq!(
        validate_link_timestamp("createdAt", "June 23"),
        Err(broken("createdAt must be an RFC3339 timestamp"))
    );
}

#[test]
fn offer_expiry_is_bounded_between_an_hour_and_thirty_days() {
    let created = "2026-06-23T00:00:00Z";
    assert_eq!(
        validate_bounded_offer_expiry("2026-06-23T01:00:00Z", created),
        Ok(())
    );
    assert_eq!(
        validate_bounded_offer_expiry("2026-07-23T00:00:00Z", created),
        Ok(())
    );
    let too_soon = broken("invitation expiry must be between one hour and thirty days");
    assert_eq!(
        validate_bounded_offer_expiry("2026-06-23T00:59:59Z", created),
        Err(too_soon.clone())
    );
    assert_eq!(
        validate_bounded_offer_expiry("2026-07-23T00:00:01Z", created),
        Err(too_soon)
    );
    assert_eq!(
        validate_bounded_offer_expiry("soon", created),
        Err(broken("expiresAt must be an RFC3339 timestamp"))
    );
    assert_eq!(
        validate_bounded_offer_expiry("2026-06-24T00:00:00Z", ""),
        Err(broken("createdAt must be non-empty and printable"))
    );
}

#[test]
fn invite_token_hashes_are_lowercase_sha256_hex() {
    let hash = "0123456789abcdef".repeat(4);
    assert_eq!(validate_invite_token_hash(&hash), Ok(()));
    let reason = "brain invite token hash must be 64 lowercase hex characters";
    assert_eq!(
        validate_invite_token_hash(&hash.to_uppercase()),
        Err(broken(reason))
    );
    assert_eq!(validate_invite_token_hash(&hash[..63]), Err(broken(reason)));
    assert_eq!(validate_invite_token_hash(""), Err(broken(reason)));
}

#[test]
fn stored_spellings_round_trip() {
    for kind in [
        ProvenanceOriginKind::Direct,
        ProvenanceOriginKind::Invitation,
        ProvenanceOriginKind::Approval,
        ProvenanceOriginKind::Bootstrap,
        ProvenanceOriginKind::Departure,
    ] {
        assert_eq!(ProvenanceOriginKind::try_from(kind.as_str()), Ok(kind));
    }
    for status in [LinkStatus::Pending] {
        assert_eq!(LinkStatus::try_from(status.as_str()), Ok(status));
    }
    assert_eq!(BrainKind::try_from("personal"), Ok(BrainKind::Personal));
    assert_eq!(FolderRole::try_from("brain_ops"), Ok(FolderRole::BrainOps));
    assert_eq!(FolderRole::try_from("vault_ops"), Ok(FolderRole::BrainOps));
    assert_eq!(
        FolderAccessMode::try_from("public"),
        Err(broken("unknown folder access mode: public"))
    );
}

#[test]
fn subtree_deletion_plans_deepest_first() {
    let stored = acme();
    let step = begin_folder_deletion(
        &stored, "npub-admin", "strategy", 1, "evt-1", None, &objects(), None, 8, 100,
    )
    .unwrap();
    let plan = match step {
        FolderDeletionStep::Delete(plan) => plan,
        FolderDeletionStep::Duplicate(_) => panic!("fresh deletion expected"),
    };
    let walked: Vec<(&str, usize)> = plan.walked.iter().map(|(id, d)| (id.as_str(), *d)).collect();
    assert_eq!(walked, vec![("strategy", 1), ("plans", 2), ("q3", 3)]);
    let deleted: Vec<&str> = plan.deleted_folders.iter().map(|f| f.id.as_str()).collect();
    assert_eq!(deleted, vec!["q3", "plans", "strategy"]);
    let object_ids: Vec<&str> = plan.objects.iter().map(|o| o.object_id.as_str()).collect();
    assert_eq!(object_ids, vec!["obj-plans", "obj-q3"]);
    assert_eq!(plan.live_object_count, 1);
    assert!(plan.audience.contains(&"npub-admin".to_owned()));
    assert!(plan.audience.contains(&"npub-member".to_owned()));
    assert_eq!(plan.audience.len(), 2);
}

#[test]
fn subtree_deletion_refuses_members_and_stale_keys() {
    let stored = acme();
    assert_eq!(
        begin_folder_deletion(&stored, "npub-member", "strategy", 1, "evt-1", None, &objects(), None, 8, 100),
        Err(broken("Folder deletion requires brain destructive authority"))
    );
    assert_eq!(
        begin_folder_deletion(&stored, "npub-admin", "strategy", 2, "evt-1", None, &objects(), None, 8, 100),
        Err(StoreError::Conflict {
            reason: "Folder Key version changed before deletion".to_owned(),
            current_revision: Some(1)
        })
    );
    assert_eq!(
        begin_folder_deletion(&stored, "npub-admin", "missing", 1, "evt-1", None, &objects(), None, 8, 100),
        Err(StoreError::MissingFolder {
            folder_id: "missing".to_owned()
        })
    );
}

#[test]
fn subtree_deletion_enforces_depth_and_folder_limits() {
    let stored = acme();
    assert_eq!(
        begin_folder_deletion(&stored, "npub-admin", "strategy", 1, "evt-1", None, &objects(), None, 2, 100),
        Err(StoreError::CapacityExceeded {
            limit: "folder_depth".to_owned(),
            max: 2,
            current: 3
        })
    );
    assert_eq!(
        begin_folder_deletion(&stored, "npub-admin", "strategy", 1, "evt-1", None, &objects(), None, 8, 2),
        Err(StoreError::CapacityExceeded {
            limit: "brain_folders".to_owned(),
            max: 2,
            current: 3
        })
    );
}

#[test]
fn subtree_deletion_checks_the_confirmed_scope() {
    let stored = acme();
    let confirmed = FolderDeletionExpectation {
        folder_ids: vec!["q3".to_owned(), "strategy".to_owned(), "plans".to_owned()],
        object_count: 1,
    };
    assert!(begin_folder_deletion(
        &stored, "npub-admin", "strategy", 1, "evt-1", None, &objects(), Some(&confirmed), 8, 100
    )
    .is_ok());
    let stale = FolderDeletionExpectation {
        folder_ids: vec!["strategy".to_owned(), "plans".to_owned()],
        object_count: 1,
    };
    assert_eq!(
        begin_folder_deletion(&stored, "npub-admin", "strategy", 1, "evt-1", None, &objects(), Some(&stale), 8, 100),
        Err(StoreError::Conflict {
            reason: "Folder subtree changed after destructive confirmation".to_owned(),
            current_revision: None
        })
    );
}

#[test]
fn subtree_deletion_retry_is_exact() {
    let stored = acme();
    let replay = FolderDeletionReplay {
        deletion_event_id: "evt-1".to_owned(),
        actor_npub: "npub-admin".to_owned(),
        root_key_version: 1,
        folder_count: 3,
        object_count: 1,
    };
    assert_eq!(
        begin_folder_deletion(&stored, "npub-admin", "strategy", 1, "evt-1", Some(&replay), &objects(), None, 8, 100),
        Ok(FolderDeletionStep::Duplicate(replay.clone()))
    );
    assert_eq!(
        begin_folder_deletion(&stored, "npub-admin", "strategy", 1, "evt-2", Some(&replay), &objects(), None, 8, 100),
        Err(broken("Folder identity was already permanently deleted"))
    );
}

#[test]
fn pending_invitations_touching_a_deleted_subtree_are_found() {
    let visited = vec![("strategy".to_owned(), 1), ("plans".to_owned(), 2)];
    let pending = vec![
        PendingInvitationScope {
            id: "inv-plans".to_owned(),
            initial_folder_access_json: "[\"other\",\"plans\"]".to_owned(),
        },
        PendingInvitationScope {
            id: "inv-other".to_owned(),
            initial_folder_access_json: "[\"other\"]".to_owned(),
        },
    ];
    assert_eq!(
        invitations_in_subtree(&pending, &visited),
        Ok(vec!["inv-plans".to_owned()])
    );
    let broken_scope = vec![PendingInvitationScope {
        id: "inv-bad".to_owned(),
        initial_folder_access_json: "{not json".to_owned(),
    }];
    assert_eq!(
        invitations_in_subtree(&broken_scope, &visited),
        Err(StoreError::InvalidRecord {
            reason: "stored Brain Invitation Folder scope is invalid".to_owned()
        })
    );
}

#[test]
fn brain_switcher_rows_decode_kind_and_role() {
    let row = visible_brain_from_row("acme", "organization", "Acme", "invited", Some("invite-1")).unwrap();
    assert_eq!(row.kind, BrainKind::Organization);
    assert_eq!(row.role, VisibleBrainRole::Invited);
    assert_eq!(row.invite_code, Some("invite-1".to_owned()));
    assert_eq!(
        visible_brain_from_row("acme", "team", "Acme", "member", None),
        Err(broken("unknown brain kind: team"))
    );
    assert_eq!(
        visible_brain_from_row("acme", "personal", "Acme", "visitor", None),
        Err(broken("unknown visible brain role: visitor"))
    );
}

#[test]
fn deletion_payload_records_the_deleted_folder_ids() {
    let ids = vec!["q3".to_owned(), "plans".to_owned()];
    assert_eq!(
        folder_deletion_payload("{\"reason\":\"cleanup\"}", &ids),
        Ok("{\"folderIds\":[\"q3\",\"plans\"],\"reason\":\"cleanup\"}".to_owned())
    );
    assert_eq!(
        folder_deletion_payload("[1,2]", &ids),
        Err(StoreError::InvalidRecord {
            reason: "Folder deletion payload must be an object".to_owned()
        })
    );
    assert_eq!(
        folder_deletion_payload("{not json", &ids),
        Err(StoreError::InvalidRecord {
            reason: "Folder deletion payload is invalid".to_owned()
        })
    );
    assert_eq!(
        folder_id_vec_json(&ids),
        Ok("[\"q3\",\"plans\"]".to_owned())
    );
}

#[test]
fn subtree_deletion_work_and_exact_retry() {
    let stored = acme();
    let plan = match begin_folder_deletion(&stored, "npub-admin", "strategy", 1, "evt-1", None, &objects(), None, 8, 100)
        .unwrap()
    {
        FolderDeletionStep::Delete(plan) => plan,
        FolderDeletionStep::Duplicate(_) => panic!("fresh deletion expected"),
    };
    let work = deletion_work(&plan, 4, 1);
    assert_eq!(work.descendants_visited, 3);
    assert_eq!(work.objects_collected, 2);
    assert_eq!(work.audience_collected, 2);
    assert_eq!(work.invitations_scanned, 4);
    assert_eq!(work.invitations_deleted, 1);
    assert_eq!(work.mutation_statements, 2 + 2 + 9 + 1 + 1);
    assert_eq!(work.retry_attempts, 0);
    let done = fresh_deletion(41, &plan, work);
    assert!(!done.duplicate);
    assert_eq!(done.deleted_folder_ids, vec!["q3".to_owned(), "plans".to_owned(), "strategy".to_owned()]);

    // The retry is answered from the kept record with the same counts.
    let record = deletion_replay_record("evt-1", "npub-admin", 1, &done);
    let retry = begin_folder_deletion(&stored, "npub-admin", "strategy", 1, "evt-1", Some(&record), &objects(), None, 8, 100);
    assert_eq!(retry, Ok(FolderDeletionStep::Duplicate(record.clone())));
    let again = duplicate_deletion(41, &record, done.deleted_folder_ids.clone());
    assert!(again.duplicate);
    assert_eq!(again.sequence, done.sequence);
    assert_eq!(again.folder_count, done.folder_count);
    assert_eq!(again.object_count, done.object_count);
    assert_eq!(again.work.mutation_statements, 0);
}

#[test]
fn exact_organization_bootstrap_retry_returns_the_existing_brain() {
    let stored = acme();
    assert_eq!(organization_bootstrap_existing(Some((&stored.brain, &vec![])), &stored.brain, &vec![]), Ok(true));
    assert_eq!(organization_bootstrap_existing(None, &stored.brain, &vec![]), Ok(false));
}

#[test]
fn reused_organization_brain_id_cannot_claim_a_different_bootstrap() {
    let stored = acme();
    let mut other = stored.brain.clone();
    other.name = "Other".to_owned();
    assert_eq!(
        organization_bootstrap_existing(Some((&stored.brain, &vec![])), &other, &vec![]),
        Err(StoreError::DuplicateId {
            field: "brain_id",
            value: "acme".to_owned()
        })
    );
}

#[test]
fn applied_permanent_agent_departure_is_not_applied_again() {
    let stored = acme();
    assert_eq!(
        check_permanent_agent_departure(
            &stored, &vec![], "fact-1", "account", "owner@finite.vip", "agent@finite.vip", "npub-member", "retired",
            "npub-admin", true, &vec![], 0, &vec![]
        ),
        Ok(PermanentAgentDepartureStep::AlreadyApplied)
    );
    assert_eq!(
        check_permanent_agent_departure(
            &stored, &vec![], "fact-1", "account", "owner@finite.vip", "agent@finite.vip", "npub-member", "paused",
            "npub-admin", true, &vec![], 0, &vec![]
        ),
        Err(broken("only permanent unlink, retirement, or deletion is a departure fact"))
    );
}

#[test]
fn stored_json_columns_parse_and_encode_string_lists() {
    assert_eq!(
        stored_folder_ids(r#"["strategy","plans"]"#),
        Ok(vec!["strategy".to_owned(), "plans".to_owned()])
    );
    assert!(matches!(stored_folder_ids("strategy"), Err(StoreError::Database { .. })));

    assert_eq!(delegation_scope_folder_ids(r#"["inbox"]"#), Ok(vec!["inbox".to_owned()]));
    match delegation_scope_folder_ids("{") {
        Err(StoreError::BrokenInvariant { reason }) => {
            assert!(reason.starts_with("stored delegation scope is invalid: "));
            assert!(reason.len() > "stored delegation scope is invalid: ".len());
        },
        other => panic!("unexpected {other:?}"),
    }

    let relays = vec!["wss://relay.finite.vip".to_owned(), "wss://backup.finite.vip".to_owned()];
    let json = nip05_relays_json(&relays).unwrap();
    assert_eq!(json, r#"["wss://relay.finite.vip","wss://backup.finite.vip"]"#);
    assert_eq!(nip05_relays_from_json(&json), Ok(relays));
    assert_eq!(nip05_relays_json(&vec![]), Ok("[]".to_owned()));
    assert!(matches!(nip05_relays_from_json("[1]"), Err(StoreError::Database { .. })));
}

#[test]
fn applied_departure_counts_written_revocations_and_affected_brains() {
    let plan = |brain: &str| DepartureRevocationPlan {
        brain_id: brain.to_owned(),
        pending_rotation_folders: vec![("strategy".to_owned(), 2)],
        mount_removals: vec![],
    };
    let plans = vec![plan("acme"), plan("beta")];
    let outcome = applied_departure_outcome(&plans, &vec![true, false]);
    assert!(outcome.applied);
    assert_eq!(outcome.revocations, 1);
    let mut affected = outcome.affected_brain_ids.clone();
    affected.sort();
    assert_eq!(affected, vec!["acme".to_owned(), "beta".to_owned()]);
    assert_eq!(departure_affected_brains(&plans).len(), 2);
}
