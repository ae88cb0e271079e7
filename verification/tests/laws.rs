use finite_brain_store::access::folder_visible_to_actor;
use finite_brain_store::bootstrap::equivalent_bootstrap_brain;
use finite_brain_store::db_errors::parse_capacity_error;
use finite_brain_store::departure::{mark_departure_pending_rotation, DeparturePendingRotation};
use finite_brain_store::error::StoreError;
use finite_brain_store::kinds::{
    BrainInvitationTargetKind, BrainKind, FolderAccessMode, FolderRole, LinkStatus, ProvenanceOriginKind,
};
use finite_brain_store::links::{
    ensure_invitation_available, ensure_share_link_available, timestamp_expired, StoredBrainInvitation,
    StoredShareLink,
};
use finite_brain_store::membership::check_remove_admin;
use finite_brain_store::model::{
    Brain, BrainMember, Folder, FolderAccessEntry, FolderKeyGrantMetadata, PersonalAgent, StoredBrain,
};

const NOW: &str = "2026-06-23T00:00:00.000Z";

fn invitation(user: &str, status: LinkStatus, expires_at: &str) -> StoredBrainInvitation {
    StoredBrainInvitation {
        id: "invitation-1".to_owned(),
        brain_id: "acme".to_owned(),
        target_kind: BrainInvitationTargetKind::Npub,
        user_id: Some(user.to_owned()),
        invited_email: None,
        invite_unwrap_npub: None,
        bootstrap_payload_hash: None,
        bootstrap_wrapped_event_json: None,
        bootstrap_authorization_event_json: None,
        bootstrap_scope: vec![],
        folder_only: false,
        claimed_by_npub: None,
        status,
        invite_code: "invite-code-1".to_owned(),
        accept_path: "/v1/brain-invitation-links/invite-code-1/accept".to_owned(),
        initial_folder_access: vec![],
        created_by_npub: "npub-admin".to_owned(),
        expires_at: expires_at.to_owned(),
        created_at: NOW.to_owned(),
        updated_at: NOW.to_owned(),
        accepted_at: None,
        origin_ref: None,
        origin_kind: ProvenanceOriginKind::Direct,
        roster_revision: None,
        duplicate_accept: false,
    }
}

fn unavailable(kind: &'static str) -> StoreError {
    StoreError::UnavailableLink { kind }
}

#[test]
fn brain_invitation_is_available_to_one_pending_user_only() {
    let pending = invitation("npub-member", LinkStatus::Pending, "2026-07-01T00:00:00.000Z");
    assert_eq!(ensure_invitation_available(&pending, "npub-member", NOW), Ok(()));
    assert_eq!(
        ensure_invitation_available(&pending, "npub-other", NOW),
        Err(unavailable("brain invitation"))
    );
    let accepted = invitation("npub-member", LinkStatus::Accepted, "2026-07-01T00:00:00.000Z");
    assert_eq!(
        ensure_invitation_available(&accepted, "npub-member", NOW),
        Err(unavailable("brain invitation"))
    );
    let expired = invitation("npub-member", LinkStatus::Pending, "2026-06-22T00:00:00.000Z");
    assert_eq!(
        ensure_invitation_available(&expired, "npub-member", NOW),
        Err(unavailable("brain invitation"))
    );
}

#[test]
fn share_link_is_available_to_its_recipient_while_pending() {
    let link = |status: LinkStatus| StoredShareLink {
        id: "share-1".to_owned(),
        brain_id: "acme".to_owned(),
        folder_id: "strategy".to_owned(),
        recipient_npub: "npub-guest".to_owned(),
        created_by_npub: "npub-admin".to_owned(),
        status,
        accept_path: "/v1/share-links/share-1/accept".to_owned(),
        expires_at: "2026-07-01T00:00:00.000Z".to_owned(),
        created_at: NOW.to_owned(),
        updated_at: NOW.to_owned(),
        accepted_at: None,
        folder_key_grant: FolderKeyGrantMetadata {
            id: "grant-1".to_owned(),
            folder_id: "strategy".to_owned(),
            key_version: 1,
            issuer_npub: "npub-admin".to_owned(),
            recipient_npub: "npub-guest".to_owned(),
            format: "NIP-59".to_owned(),
            wrapped_event_json: "{}".to_owned(),
            access_change_event_json: None,
            created_at: NOW.to_owned(),
        },
        duplicate_accept: false,
    };
    assert_eq!(ensure_share_link_available(&link(LinkStatus::Pending), "npub-guest", NOW), Ok(()));
    assert_eq!(
        ensure_share_link_available(&link(LinkStatus::Pending), "npub-other", NOW),
        Err(unavailable("Folder Invitation"))
    );
    assert_eq!(
        ensure_share_link_available(&link(LinkStatus::Revoked), "npub-guest", NOW),
        Err(unavailable("Folder Invitation"))
    );
}

#[test]
fn expiry_follows_instants_across_offsets() {
    // The same instant written in two offsets expires together.
    let a = "2026-08-01T05:00:00+05:00";
    let b = "2026-08-01T00:00:00Z";
    for now in ["2026-07-31T23:59:59Z", "2026-08-01T00:00:00Z", "2026-08-01T00:00:01Z"] {
        assert_eq!(timestamp_expired(a, now), timestamp_expired(b, now));
    }
    // Once expired, later clocks keep it expired.
    assert!(timestamp_expired(b, "2026-08-01T00:00:00Z"));
    assert!(timestamp_expired(b, "2027-01-01T00:00:00Z"));
}

#[test]
fn marking_a_departed_folder_twice_keeps_one_marker() {
    let mut markers: Vec<DeparturePendingRotation> = Vec::new();
    mark_departure_pending_rotation(&mut markers, "acme", "strategy", 3, 7);
    let once = markers.clone();
    mark_departure_pending_rotation(&mut markers, "acme", "strategy", 3, 7);
    assert_eq!(markers, once);
}

fn brain(admins: &[&str], members: &[&str]) -> Brain {
    Brain {
        id: "acme".to_owned(),
        kind: BrainKind::Organization,
        name: "Acme".to_owned(),
        owner_user_id: None,
        admins: admins.iter().map(|a| a.to_string()).collect(),
        members: members
            .iter()
            .map(|m| BrainMember {
                user_id: m.to_string(),
                folder_access: vec![],
            })
            .collect(),
        folders: vec![Folder {
            id: "general".to_owned(),
            name: "General".to_owned(),
            role: FolderRole::General,
            access: FolderAccessMode::AllMembers,
            parent_folder_id: None,
            path: "general".to_owned(),
            current_key_version: 1,
        }],
    }
}

#[test]
fn bootstrap_equivalence_is_symmetric() {
    let a = brain(&["npub-a", "npub-b"], &["npub-a", "npub-b"]);
    let b = brain(&["npub-b", "npub-a"], &["npub-b", "npub-a"]);
    let c = brain(&["npub-a"], &["npub-a", "npub-b"]);
    assert!(equivalent_bootstrap_brain(&a, &b));
    assert!(equivalent_bootstrap_brain(&b, &a));
    assert!(!equivalent_bootstrap_brain(&a, &c));
    assert!(!equivalent_bootstrap_brain(&c, &a));
    assert!(equivalent_bootstrap_brain(&a, &a));
}

#[test]
fn the_last_admin_cannot_be_removed() {
    assert_eq!(
        check_remove_admin(&brain(&["npub-a"], &["npub-a"]), "npub-a"),
        Err(StoreError::BrokenInvariant {
            reason: "organization brain must keep at least one admin".to_owned()
        })
    );
    assert_eq!(check_remove_admin(&brain(&["npub-a", "npub-b"], &["npub-a", "npub-b"]), "npub-a"), Ok(()));
}

#[test]
fn explicit_guest_access_is_orthogonal_to_admin_only_mode() {
    let mut b = brain(&["npub-a"], &["npub-a", "npub-m"]);
    b.folders[0].access = FolderAccessMode::AdminOnly;
    let stored = StoredBrain {
        brain: b,
        personal_agent: None,
        folder_access: vec![FolderAccessEntry {
            folder_id: "general".to_owned(),
            user_ids: vec!["npub-guest".to_owned()],
        }],
        grants: vec![],
        setup_incomplete_folder_ids: vec![],
    };
    assert!(folder_visible_to_actor(&stored, "general", "npub-guest"));
    assert!(folder_visible_to_actor(&stored, "general", "npub-a"));
    assert!(!folder_visible_to_actor(&stored, "general", "npub-m"));
    assert!(!folder_visible_to_actor(&stored, "missing", "npub-guest"));
}

#[test]
fn personal_agent_reads_owner_folders() {
    let mut b = brain(&[], &[]);
    b.kind = BrainKind::Personal;
    b.owner_user_id = Some("npub-owner".to_owned());
    b.folders[0].access = FolderAccessMode::Owner;
    let stored = StoredBrain {
        brain: b,
        personal_agent: Some(PersonalAgent {
            brain_id: "acme".to_owned(),
            owner_npub: "npub-owner".to_owned(),
            agent_npub: "npub-agent".to_owned(),
            created_by_npub: "npub-owner".to_owned(),
            created_at: NOW.to_owned(),
            updated_at: NOW.to_owned(),
        }),
        folder_access: vec![],
        grants: vec![],
        setup_incomplete_folder_ids: vec![],
    };
    assert!(folder_visible_to_actor(&stored, "general", "npub-agent"));
    assert!(folder_visible_to_actor(&stored, "general", "npub-owner"));
    assert!(!folder_visible_to_actor(&stored, "general", "npub-other"));
}

#[test]
fn capacity_messages_read_back_their_limit() {
    for (limit, max) in [("folder_key_grants", 4096usize), ("brain_folders", 0), ("folder_depth", 32)] {
        let message = format!("finite_capacity:{limit}:{max}");
        assert_eq!(parse_capacity_error(&message), Some((limit.to_owned(), max)));
    }
}
