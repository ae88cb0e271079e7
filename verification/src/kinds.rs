//! Record kinds and their stored spellings.
use vstd::prelude::*;

use crate::error::{is_broken, StoreError};
use crate::text::str_eq;

verus! {

/// `BrokenInvariant` naming an unknown stored spelling.
pub open spec fn unknown_spelling(e: StoreError, prefix: Seq<char>, value: Seq<char>) -> bool {
    is_broken(e, prefix + value)
}

fn unknown(prefix: &str, value: &str) -> (e: StoreError)
    ensures
        unknown_spelling(e, prefix@, value@),
{
    StoreError::BrokenInvariant { reason: prefix.to_owned().concat(value) }
}

/// Grant Provenance origin: how an access record came to exist.
#[derive(Debug, Clone, Copy, PartialEq, Eq, Structural)]
pub enum ProvenanceOriginKind {
    /// Written directly by an admin action with no invitation or approval.
    Direct,
    /// Produced by accepting or claiming a Brain Invitation.
    Invitation,
    /// Produced by a signed Approval Card.
    Approval,
    /// Produced by an account bootstrap flow.
    Bootstrap,
    /// Produced by consuming a Core Permanent Departure Fact.
    Departure,
}

impl ProvenanceOriginKind {
    /// Stored spelling.
    pub open spec fn spelling(self) -> Seq<char> {
        match self {
            ProvenanceOriginKind::Direct => "direct"@,
            ProvenanceOriginKind::Invitation => "invitation"@,
            ProvenanceOriginKind::Approval => "approval"@,
            ProvenanceOriginKind::Bootstrap => "bootstrap"@,
            ProvenanceOriginKind::Departure => "departure"@,
        }
    }

    /// The kind a stored spelling names, if any.
    pub open spec fn from_spelling(s: Seq<char>) -> Option<Self> {
        if s == "direct"@ {
            Some(ProvenanceOriginKind::Direct)
        } else if s == "invitation"@ {
            Some(ProvenanceOriginKind::Invitation)
        } else if s == "approval"@ {
            Some(ProvenanceOriginKind::Approval)
        } else if s == "bootstrap"@ {
            Some(ProvenanceOriginKind::Bootstrap)
        } else if s == "departure"@ {
            Some(ProvenanceOriginKind::Departure)
        } else {
            None
        }
    }

    pub fn as_str(self) -> (s: &'static str)
        ensures
            s@ == self.spelling(),
    {
        match self {
            ProvenanceOriginKind::Direct => "direct",
            ProvenanceOriginKind::Invitation => "invitation",
            ProvenanceOriginKind::Approval => "approval",
            ProvenanceOriginKind::Bootstrap => "bootstrap",
            ProvenanceOriginKind::Departure => "departure",
        }
    }

    /// Parses a stored spelling; any other text is a broken invariant.
    pub fn try_from(value: &str) -> (r: Result<Self, StoreError>)
        ensures
            match Self::from_spelling(value@) {
                Some(k) => r == Ok::<Self, StoreError>(k),
                None => r matches Err(e) && unknown_spelling(e, "unknown provenance origin kind "@, value@),
            },
    {
        if str_eq(value, "direct") {
            Ok(ProvenanceOriginKind::Direct)
        } else if str_eq(value, "invitation") {
            Ok(ProvenanceOriginKind::Invitation)
        } else if str_eq(value, "approval") {
            Ok(ProvenanceOriginKind::Approval)
        } else if str_eq(value, "bootstrap") {
            Ok(ProvenanceOriginKind::Bootstrap)
        } else if str_eq(value, "departure") {
            Ok(ProvenanceOriginKind::Departure)
        } else {
            Err(unknown("unknown provenance origin kind ", value))
        }
    }

    /// Every kind parses back from its own stored spelling, and distinct kinds
    /// have distinct spellings.
    pub proof fn lemma_spelling_round_trip(self, other: Self)
        ensures
            Self::from_spelling(self.spelling()) == Some(self),
            self.spelling() == other.spelling() ==> self == other,
    {
        reveal_strlit("direct");
        reveal_strlit("invitation");
        reveal_strlit("approval");
        reveal_strlit("bootstrap");
        reveal_strlit("departure");

        assert("direct"@.len() != "invitation"@.len());
        assert("direct"@.len() != "approval"@.len());
        assert("direct"@.len() != "bootstrap"@.len());
        assert("direct"@.len() != "departure"@.len());
        assert("invitation"@.len() != "approval"@.len());
        assert("invitation"@.len() != "bootstrap"@.len());
        assert("invitation"@.len() != "departure"@.len());
        assert("approval"@.len() != "bootstrap"@.len());
        assert("approval"@.len() != "departure"@.len());
        assert("bootstrap"@[0] != "departure"@[0]);
    }
}

/// Core Permanent Departure Fact principal classification.
#[derive(Debug, Clone, Copy, PartialEq, Eq, Structural)]
pub enum DeparturePrincipalKind {
    /// A departed human account.
    Human,
    /// A retired or deleted Managed Agent.
    Agent,
}

impl DeparturePrincipalKind {
    /// Stored spelling.
    pub open spec fn spelling(self) -> Seq<char> {
        match self {
            DeparturePrincipalKind::Human => "human"@,
            DeparturePrincipalKind::Agent => "agent"@,
        }
    }

    /// The kind a stored spelling names, if any.
    pub open spec fn from_spelling(s: Seq<char>) -> Option<Self> {
        if s == "human"@ {
            Some(DeparturePrincipalKind::Human)
        } else if s == "agent"@ {
            Some(DeparturePrincipalKind::Agent)
        } else {
            None
        }
    }

    pub fn as_str(self) -> (s: &'static str)
        ensures
            s@ == self.spelling(),
    {
        match self {
            DeparturePrincipalKind::Human => "human",
            DeparturePrincipalKind::Agent => "agent",
        }
    }

    /// Parses a stored spelling; any other text is a broken invariant.
    pub fn try_from(value: &str) -> (r: Result<Self, StoreError>)
        ensures
            match Self::from_spelling(value@) {
                Some(k) => r == Ok::<Self, StoreError>(k),
                None => r matches Err(e) && unknown_spelling(e, "unknown departure principal kind "@, value@),
            },
    {
        if str_eq(value, "human") {
            Ok(DeparturePrincipalKind::Human)
        } else if str_eq(value, "agent") {
            Ok(DeparturePrincipalKind::Agent)
        } else {
            Err(unknown("unknown departure principal kind ", value))
        }
    }

    /// Every kind parses back from its own stored spelling, and distinct kinds
    /// have distinct spellings.
    pub proof fn lemma_spelling_round_trip(self, other: Self)
        ensures
            Self::from_spelling(self.spelling()) == Some(self),
            self.spelling() == other.spelling() ==> self == other,
    {
        reveal_strlit("human");
        reveal_strlit("agent");

        assert("human"@[0] != "agent"@[0]);
    }
}

/// Brain Invitation target routing mode.
#[derive(Debug, Clone, Copy, PartialEq, Eq, Structural)]
pub enum BrainInvitationTargetKind {
    /// Existing concrete npub/hex/NIP-05 user target.
    Npub,
    /// Email-targeted bootstrap awaiting client-side claim into an npub.
    EmailBootstrap,
}

impl BrainInvitationTargetKind {
    /// Stored spelling.
    pub open spec fn spelling(self) -> Seq<char> {
        match self {
            BrainInvitationTargetKind::Npub => "npub"@,
            BrainInvitationTargetKind::EmailBootstrap => "email_bootstrap"@,
        }
    }

    /// The kind a stored spelling names, if any.
    pub open spec fn from_spelling(s: Seq<char>) -> Option<Self> {
        if s == "npub"@ {
            Some(BrainInvitationTargetKind::Npub)
        } else if s == "email_bootstrap"@ {
            Some(BrainInvitationTargetKind::EmailBootstrap)
        } else {
            None
        }
    }

    pub fn as_str(self) -> (s: &'static str)
        ensures
            s@ == self.spelling(),
    {
        match self {
            BrainInvitationTargetKind::Npub => "npub",
            BrainInvitationTargetKind::EmailBootstrap => "email_bootstrap",
        }
    }

    /// Parses a stored spelling; any other text is a broken invariant.
    pub fn try_from(value: &str) -> (r: Result<Self, StoreError>)
        ensures
            match Self::from_spelling(value@) {
                Some(k) => r == Ok::<Self, StoreError>(k),
                None => r matches Err(e) && unknown_spelling(e, "unknown brain invitation target kind "@, value@),
            },
    {
        if str_eq(value, "npub") {
            Ok(BrainInvitationTargetKind::Npub)
        } else if str_eq(value, "email_bootstrap") {
            Ok(BrainInvitationTargetKind::EmailBootstrap)
        } else {
            Err(unknown("unknown brain invitation target kind ", value))
        }
    }

    /// Every kind parses back from its own stored spelling, and distinct kinds
    /// have distinct spellings.
    pub proof fn lemma_spelling_round_trip(self, other: Self)
        ensures
            Self::from_spelling(self.spelling()) == Some(self),
            self.spelling() == other.spelling() ==> self == other,
    {
        reveal_strlit("npub");
        reveal_strlit("email_bootstrap");

        assert("npub"@.len() != "email_bootstrap"@.len());
    }
}

/// Lifecycle state of one stored human Approval request.
#[derive(Debug, Clone, Copy, PartialEq, Eq, Structural)]
pub enum ApprovalRequestStatus {
    /// Waiting for a human decision.
    Pending,
    /// A signed Approval artifact was applied for this request.
    Approved,
    /// A human dismissed the request; nothing was signed.
    Denied,
}

impl ApprovalRequestStatus {
    /// Stored spelling.
    pub open spec fn spelling(self) -> Seq<char> {
        match self {
            ApprovalRequestStatus::Pending => "pending"@,
            ApprovalRequestStatus::Approved => "approved"@,
            ApprovalRequestStatus::Denied => "denied"@,
        }
    }

    /// The kind a stored spelling names, if any.
    pub open spec fn from_spelling(s: Seq<char>) -> Option<Self> {
        if s == "pending"@ {
            Some(ApprovalRequestStatus::Pending)
        } else if s == "approved"@ {
            Some(ApprovalRequestStatus::Approved)
        } else if s == "denied"@ {
            Some(ApprovalRequestStatus::Denied)
        } else {
            None
        }
    }

    pub fn as_str(self) -> (s: &'static str)
        ensures
            s@ == self.spelling(),
    {
        match self {
            ApprovalRequestStatus::Pending => "pending",
            ApprovalRequestStatus::Approved => "approved",
            ApprovalRequestStatus::Denied => "denied",
        }
    }

    /// Parses a stored spelling; any other text is a broken invariant.
    pub fn try_from(value: &str) -> (r: Result<Self, StoreError>)
        ensures
            match Self::from_spelling(value@) {
                Some(k) => r == Ok::<Self, StoreError>(k),
                None => r matches Err(e) && unknown_spelling(e, "unknown approval request status "@, value@),
            },
    {
        if str_eq(value, "pending") {
            Ok(ApprovalRequestStatus::Pending)
        } else if str_eq(value, "approved") {
            Ok(ApprovalRequestStatus::Approved)
        } else if str_eq(value, "denied") {
            Ok(ApprovalRequestStatus::Denied)
        } else {
            Err(unknown("unknown approval request status ", value))
        }
    }

    /// Every kind parses back from its own stored spelling, and distinct kinds
    /// have distinct spellings.
    pub proof fn lemma_spelling_round_trip(self, other: Self)
        ensures
            Self::from_spelling(self.spelling()) == Some(self),
            self.spelling() == other.spelling() ==> self == other,
    {
        reveal_strlit("pending");
        reveal_strlit("approved");
        reveal_strlit("denied");

        assert("pending"@.len() != "approved"@.len());
        assert("pending"@.len() != "denied"@.len());
        assert("approved"@.len() != "denied"@.len());
    }
}

/// Current lifecycle state for Brain Invitations and Share Links.
#[derive(Debug, Clone, Copy, PartialEq, Eq, Structural)]
pub enum LinkStatus {
    /// Link can still be accepted.
    Pending,
    /// Link was consumed by the target recipient.
    Accepted,
    /// Link delivery was revoked by an admin.
    Revoked,
}

impl LinkStatus {
    /// Stored spelling.
    pub open spec fn spelling(self) -> Seq<char> {
        match self {
            LinkStatus::Pending => "pending"@,
            LinkStatus::Accepted => "accepted"@,
            LinkStatus::Revoked => "revoked"@,
        }
    }

    /// The kind a stored spelling names, if any.
    pub open spec fn from_spelling(s: Seq<char>) -> Option<Self> {
        if s == "pending"@ {
            Some(LinkStatus::Pending)
        } else if s == "accepted"@ {
            Some(LinkStatus::Accepted)
        } else if s == "revoked"@ {
            Some(LinkStatus::Revoked)
        } else {
            None
        }
    }

    pub fn as_str(self) -> (s: &'static str)
        ensures
            s@ == self.spelling(),
    {
        match self {
            LinkStatus::Pending => "pending",
            LinkStatus::Accepted => "accepted",
            LinkStatus::Revoked => "revoked",
        }
    }

    /// Parses a stored spelling; any other text is a broken invariant.
    pub fn try_from(value: &str) -> (r: Result<Self, StoreError>)
        ensures
            match Self::from_spelling(value@) {
                Some(k) => r == Ok::<Self, StoreError>(k),
                None => r matches Err(e) && unknown_spelling(e, "unknown link status: "@, value@),
            },
    {
        if str_eq(value, "pending") {
            Ok(LinkStatus::Pending)
        } else if str_eq(value, "accepted") {
            Ok(LinkStatus::Accepted)
        } else if str_eq(value, "revoked") {
            Ok(LinkStatus::Revoked)
        } else {
            Err(unknown("unknown link status: ", value))
        }
    }

    /// Every kind parses back from its own stored spelling, and distinct kinds
    /// have distinct spellings.
    pub proof fn lemma_spelling_round_trip(self, other: Self)
        ensures
            Self::from_spelling(self.spelling()) == Some(self),
            self.spelling() == other.spelling() ==> self == other,
    {
        reveal_strlit("pending");
        reveal_strlit("accepted");
        reveal_strlit("revoked");

        assert("pending"@.len() != "accepted"@.len());
        assert("pending"@[0] != "revoked"@[0]);
        assert("accepted"@.len() != "revoked"@.len());
    }
}

/// Shared Folder Connection lifecycle state.
#[derive(Debug, Clone, Copy, PartialEq, Eq, Structural)]
pub enum SharedFolderConnectionStatus {
    /// Connection is active.
    Active,
    /// Connection delivery/access has been revoked.
    Revoked,
}

impl SharedFolderConnectionStatus {
    /// Stored spelling.
    pub open spec fn spelling(self) -> Seq<char> {
        match self {
            SharedFolderConnectionStatus::Active => "active"@,
            SharedFolderConnectionStatus::Revoked => "revoked"@,
        }
    }

    /// The kind a stored spelling names, if any.
    pub open spec fn from_spelling(s: Seq<char>) -> Option<Self> {
        if s == "active"@ {
            Some(SharedFolderConnectionStatus::Active)
        } else if s == "revoked"@ {
            Some(SharedFolderConnectionStatus::Revoked)
        } else {
            None
        }
    }

    pub fn as_str(self) -> (s: &'static str)
        ensures
            s@ == self.spelling(),
    {
        match self {
            SharedFolderConnectionStatus::Active => "active",
            SharedFolderConnectionStatus::Revoked => "revoked",
        }
    }

    /// Parses a stored spelling; any other text is a broken invariant.
    pub fn try_from(value: &str) -> (r: Result<Self, StoreError>)
        ensures
            match Self::from_spelling(value@) {
                Some(k) => r == Ok::<Self, StoreError>(k),
                None => r matches Err(e) && unknown_spelling(e, "unknown shared folder connection status: "@, value@),
            },
    {
        if str_eq(value, "active") {
            Ok(SharedFolderConnectionStatus::Active)
        } else if str_eq(value, "revoked") {
            Ok(SharedFolderConnectionStatus::Revoked)
        } else {
            Err(unknown("unknown shared folder connection status: ", value))
        }
    }

    /// Every kind parses back from its own stored spelling, and distinct kinds
    /// have distinct spellings.
    pub proof fn lemma_spelling_round_trip(self, other: Self)
        ensures
            Self::from_spelling(self.spelling()) == Some(self),
            self.spelling() == other.spelling() ==> self == other,
    {
        reveal_strlit("active");
        reveal_strlit("revoked");

        assert("active"@.len() != "revoked"@.len());
    }
}

/// Brain kind.
#[derive(Debug, Clone, Copy, PartialEq, Eq, Structural)]
pub enum BrainKind {
    /// A Personal Brain with one owner.
    Personal,
    /// An Organization Brain governed by admins.
    Organization,
}

impl BrainKind {
    /// Stored spelling.
    pub open spec fn spelling(self) -> Seq<char> {
        match self {
            BrainKind::Personal => "personal"@,
            BrainKind::Organization => "organization"@,
        }
    }

    /// The kind a stored spelling names, if any.
    pub open spec fn from_spelling(s: Seq<char>) -> Option<Self> {
        if s == "personal"@ {
            Some(BrainKind::Personal)
        } else if s == "organization"@ {
            Some(BrainKind::Organization)
        } else {
            None
        }
    }

    pub fn as_str(self) -> (s: &'static str)
        ensures
            s@ == self.spelling(),
    {
        match self {
            BrainKind::Personal => "personal",
            BrainKind::Organization => "organization",
        }
    }

    /// Parses a stored spelling; any other text is a broken invariant.
    pub fn try_from(value: &str) -> (r: Result<Self, StoreError>)
        ensures
            match Self::from_spelling(value@) {
                Some(k) => r == Ok::<Self, StoreError>(k),
                None => r matches Err(e) && unknown_spelling(e, "unknown brain kind: "@, value@),
            },
    {
        if str_eq(value, "personal") {
            Ok(BrainKind::Personal)
        } else if str_eq(value, "organization") {
            Ok(BrainKind::Organization)
        } else {
            Err(unknown("unknown brain kind: ", value))
        }
    }

    /// Every kind parses back from its own stored spelling, and distinct kinds
    /// have distinct spellings.
    pub proof fn lemma_spelling_round_trip(self, other: Self)
        ensures
            Self::from_spelling(self.spelling()) == Some(self),
            self.spelling() == other.spelling() ==> self == other,
    {
        reveal_strlit("personal");
        reveal_strlit("organization");

        assert("personal"@.len() != "organization"@.len());
    }
}

/// Native Folder access mode.
#[derive(Debug, Clone, Copy, PartialEq, Eq, Structural)]
pub enum FolderAccessMode {
    /// Only the Personal Brain owner.
    Owner,
    /// Brain admins.
    AdminOnly,
    /// Every Brain member.
    AllMembers,
    /// Admins and explicitly granted identities.
    Restricted,
}

impl FolderAccessMode {
    /// Stored spelling.
    pub open spec fn spelling(self) -> Seq<char> {
        match self {
            FolderAccessMode::Owner => "owner"@,
            FolderAccessMode::AdminOnly => "admin_only"@,
            FolderAccessMode::AllMembers => "all_members"@,
            FolderAccessMode::Restricted => "restricted"@,
        }
    }

    /// The kind a stored spelling names, if any.
    pub open spec fn from_spelling(s: Seq<char>) -> Option<Self> {
        if s == "owner"@ {
            Some(FolderAccessMode::Owner)
        } else if s == "admin_only"@ {
            Some(FolderAccessMode::AdminOnly)
        } else if s == "all_members"@ {
            Some(FolderAccessMode::AllMembers)
        } else if s == "restricted"@ {
            Some(FolderAccessMode::Restricted)
        } else {
            None
        }
    }

    pub fn as_str(self) -> (s: &'static str)
        ensures
            s@ == self.spelling(),
    {
        match self {
            FolderAccessMode::Owner => "owner",
            FolderAccessMode::AdminOnly => "admin_only",
            FolderAccessMode::AllMembers => "all_members",
            FolderAccessMode::Restricted => "restricted",
        }
    }

    /// Parses a stored spelling; any other text is a broken invariant.
    pub fn try_from(value: &str) -> (r: Result<Self, StoreError>)
        ensures
            match Self::from_spelling(value@) {
                Some(k) => r == Ok::<Self, StoreError>(k),
                None => r matches Err(e) && unknown_spelling(e, "unknown folder access mode: "@, value@),
            },
    {
        if str_eq(value, "owner") {
            Ok(FolderAccessMode::Owner)
        } else if str_eq(value, "admin_only") {
            Ok(FolderAccessMode::AdminOnly)
        } else if str_eq(value, "all_members") {
            Ok(FolderAccessMode::AllMembers)
        } else if str_eq(value, "restricted") {
            Ok(FolderAccessMode::Restricted)
        } else {
            Err(unknown("unknown folder access mode: ", value))
        }
    }

    /// Every kind parses back from its own stored spelling, and distinct kinds
    /// have distinct spellings.
    pub proof fn lemma_spelling_round_trip(self, other: Self)
        ensures
            Self::from_spelling(self.spelling()) == Some(self),
            self.spelling() == other.spelling() ==> self == other,
    {
        reveal_strlit("owner");
        reveal_strlit("admin_only");
        reveal_strlit("all_members");
        reveal_strlit("restricted");

        assert("owner"@.len() != "admin_only"@.len());
        assert("owner"@.len() != "all_members"@.len());
        assert("owner"@.len() != "restricted"@.len());
        assert("admin_only"@.len() != "all_members"@.len());
        assert("admin_only"@[0] != "restricted"@[0]);
        assert("all_members"@.len() != "restricted"@.len());
    }
}

/// Folder role inside a Brain.
#[derive(Debug, Clone, Copy, PartialEq, Eq, Structural)]
pub enum FolderRole {
    /// The Personal Brain home Folder.
    PersonalHome,
    /// The Brain operations Folder.
    BrainOps,
    /// The general Folder.
    General,
    /// An ordinary Folder.
    Folder,
}

impl FolderRole {
    /// Stored spelling; the operations Folder keeps its historical spelling.
    pub open spec fn spelling(self) -> Seq<char> {
        match self {
            FolderRole::PersonalHome => "personal_home"@,
            FolderRole::BrainOps => "vault_ops"@,
            FolderRole::General => "general"@,
            FolderRole::Folder => "folder"@,
        }
    }

    /// The role a stored spelling names, if any; both the current and the
    /// historical spelling name the operations Folder.
    pub open spec fn from_spelling(s: Seq<char>) -> Option<Self> {
        if s == "personal_home"@ {
            Some(FolderRole::PersonalHome)
        } else if s == "brain_ops"@ || s == "vault_ops"@ {
            Some(FolderRole::BrainOps)
        } else if s == "general"@ {
            Some(FolderRole::General)
        } else if s == "folder"@ {
            Some(FolderRole::Folder)
        } else {
            None
        }
    }

    pub fn as_str(self) -> (s: &'static str)
        ensures
            s@ == self.spelling(),
    {
        match self {
            FolderRole::PersonalHome => "personal_home",
            FolderRole::BrainOps => "vault_ops",
            FolderRole::General => "general",
            FolderRole::Folder => "folder",
        }
    }

    /// Parses a stored spelling; any other text is a broken invariant.
    pub fn try_from(value: &str) -> (r: Result<Self, StoreError>)
        ensures
            match Self::from_spelling(value@) {
                Some(k) => r == Ok::<Self, StoreError>(k),
                None => r matches Err(e) && unknown_spelling(e, "unknown folder role: "@, value@),
            },
    {
        if str_eq(value, "personal_home") {
            Ok(FolderRole::PersonalHome)
        } else if str_eq(value, "brain_ops") || str_eq(value, "vault_ops") {
            Ok(FolderRole::BrainOps)
        } else if str_eq(value, "general") {
            Ok(FolderRole::General)
        } else if str_eq(value, "folder") {
            Ok(FolderRole::Folder)
        } else {
            Err(unknown("unknown folder role: ", value))
        }
    }

    /// Every role parses back from its own stored spelling, and distinct roles
    /// have distinct spellings.
    pub proof fn lemma_spelling_round_trip(self, other: Self)
        ensures
            Self::from_spelling(self.spelling()) == Some(self),
            self.spelling() == other.spelling() ==> self == other,
    {
        reveal_strlit("personal_home");
        reveal_strlit("brain_ops");
        reveal_strlit("vault_ops");
        reveal_strlit("general");
        reveal_strlit("folder");
        assert("personal_home"@.len() != "brain_ops"@.len());
        assert("personal_home"@.len() != "vault_ops"@.len());
        assert("personal_home"@.len() != "general"@.len());
        assert("personal_home"@.len() != "folder"@.len());
        assert("brain_ops"@[0] != "vault_ops"@[0]);
        assert("brain_ops"@.len() != "general"@.len());
        assert("brain_ops"@.len() != "folder"@.len());
        assert("vault_ops"@.len() != "general"@.len());
        assert("vault_ops"@.len() != "folder"@.len());
        assert("general"@.len() != "folder"@.len());
    }
}

/// Accepted sync record type.
#[derive(Debug, Clone, Copy, PartialEq, Eq, Structural)]
pub enum SyncRecordType {
    /// Encrypted Folder Object create/update/move.
    FolderObjectRevision,
    /// Encrypted Folder Object tombstone/delete.
    FolderObjectTombstone,
    /// Folder Key Grant control record.
    FolderKeyGrant,
    /// Brain admin access-change control record.
    BrainAdminAccessChange,
}

impl SyncRecordType {
    /// Wire spelling.
    pub open spec fn spelling(self) -> Seq<char> {
        match self {
            SyncRecordType::FolderObjectRevision => "folder_object_revision"@,
            SyncRecordType::FolderObjectTombstone => "folder_object_tombstone"@,
            SyncRecordType::FolderKeyGrant => "folder_key_grant"@,
            SyncRecordType::BrainAdminAccessChange => "brain_admin_access_change"@,
        }
    }

    /// Spelling in storage; the admin access-change keeps its historical
    /// spelling there.
    pub open spec fn storage_spelling(self) -> Seq<char> {
        match self {
            SyncRecordType::BrainAdminAccessChange => "vault_admin_access_change"@,
            _ => self.spelling(),
        }
    }

    /// The type a wire or storage spelling names, if any.
    pub open spec fn from_spelling(s: Seq<char>) -> Option<Self> {
        if s == "folder_object_revision"@ {
            Some(SyncRecordType::FolderObjectRevision)
        } else if s == "folder_object_tombstone"@ {
            Some(SyncRecordType::FolderObjectTombstone)
        } else if s == "folder_key_grant"@ {
            Some(SyncRecordType::FolderKeyGrant)
        } else if s == "brain_admin_access_change"@ || s == "vault_admin_access_change"@ {
            Some(SyncRecordType::BrainAdminAccessChange)
        } else {
            None
        }
    }

    pub fn as_str(&self) -> (s: &'static str)
        ensures
            s@ == self.spelling(),
    {
        match self {
            SyncRecordType::FolderObjectRevision => "folder_object_revision",
            SyncRecordType::FolderObjectTombstone => "folder_object_tombstone",
            SyncRecordType::FolderKeyGrant => "folder_key_grant",
            SyncRecordType::BrainAdminAccessChange => "brain_admin_access_change",
        }
    }

    pub fn as_storage_str(&self) -> (s: &'static str)
        ensures
            s@ == self.storage_spelling(),
    {
        match self {
            SyncRecordType::BrainAdminAccessChange => "vault_admin_access_change",
            _ => self.as_str(),
        }
    }

    /// Parses a wire or storage spelling; any other text is a broken invariant.
    pub fn try_from(value: &str) -> (r: Result<Self, StoreError>)
        ensures
            match Self::from_spelling(value@) {
                Some(k) => r == Ok::<Self, StoreError>(k),
                None => r matches Err(e) && unknown_spelling(e, "unknown sync record type: "@, value@),
            },
    {
        if str_eq(value, "folder_object_revision") {
            Ok(SyncRecordType::FolderObjectRevision)
        } else if str_eq(value, "folder_object_tombstone") {
            Ok(SyncRecordType::FolderObjectTombstone)
        } else if str_eq(value, "folder_key_grant") {
            Ok(SyncRecordType::FolderKeyGrant)
        } else if str_eq(value, "brain_admin_access_change") || str_eq(value, "vault_admin_access_change") {
            Ok(SyncRecordType::BrainAdminAccessChange)
        } else {
            Err(unknown("unknown sync record type: ", value))
        }
    }

    /// Both the wire and the storage spelling of a type parse back to it, and
    /// distinct types have distinct wire spellings.
    pub proof fn lemma_spelling_round_trip(self, other: Self)
        ensures
            Self::from_spelling(self.spelling()) == Some(self),
            Self::from_spelling(self.storage_spelling()) == Some(self),
            self.spelling() == other.spelling() ==> self == other,
            self.storage_spelling() == other.storage_spelling() ==> self == other,
    {
        reveal_strlit("folder_object_revision");
        reveal_strlit("folder_object_tombstone");
        reveal_strlit("folder_key_grant");
        reveal_strlit("brain_admin_access_change");
        reveal_strlit("vault_admin_access_change");
        assert("folder_object_revision"@.len() != "folder_object_tombstone"@.len());
        assert("folder_object_revision"@.len() != "folder_key_grant"@.len());
        assert("folder_object_revision"@.len() != "brain_admin_access_change"@.len());
        assert("folder_object_revision"@.len() != "vault_admin_access_change"@.len());
        assert("folder_object_tombstone"@.len() != "folder_key_grant"@.len());
        assert("folder_object_tombstone"@.len() != "brain_admin_access_change"@.len());
        assert("folder_object_tombstone"@.len() != "vault_admin_access_change"@.len());
        assert("folder_key_grant"@.len() != "brain_admin_access_change"@.len());
        assert("folder_key_grant"@.len() != "vault_admin_access_change"@.len());
        assert("brain_admin_access_change"@[0] != "vault_admin_access_change"@[0]);
    }
}

/// Actor relationship used by client Brain switchers.
#[derive(Debug, Clone, Copy, PartialEq, Eq, Structural)]
pub enum VisibleBrainRole {
    /// Personal Brain owner.
    Owner,
    /// Personal Brain's one fully trusted agent.
    PersonalAgent,
    /// Organization Brain admin.
    Admin,
    /// Organization Brain member.
    Member,
    /// Folder-limited identity without Brain Membership.
    Guest,
    /// Pending Organization Brain invitation.
    Invited,
}

impl VisibleBrainRole {
    /// Spelling in Brain switcher rows.
    pub open spec fn spelling(self) -> Seq<char> {
        match self {
            VisibleBrainRole::Owner => "owner"@,
            VisibleBrainRole::PersonalAgent => "personal_agent"@,
            VisibleBrainRole::Admin => "admin"@,
            VisibleBrainRole::Member => "member"@,
            VisibleBrainRole::Guest => "guest"@,
            VisibleBrainRole::Invited => "invited"@,
        }
    }

    /// The role a spelling names, if any.
    pub open spec fn from_spelling(s: Seq<char>) -> Option<Self> {
        if s == "owner"@ {
            Some(VisibleBrainRole::Owner)
        } else if s == "personal_agent"@ {
            Some(VisibleBrainRole::PersonalAgent)
        } else if s == "admin"@ {
            Some(VisibleBrainRole::Admin)
        } else if s == "member"@ {
            Some(VisibleBrainRole::Member)
        } else if s == "guest"@ {
            Some(VisibleBrainRole::Guest)
        } else if s == "invited"@ {
            Some(VisibleBrainRole::Invited)
        } else {
            None
        }
    }

    /// Parses a switcher row's role; any other text is a broken invariant.
    pub fn try_from(value: &str) -> (r: Result<Self, StoreError>)
        ensures
            match Self::from_spelling(value@) {
                Some(k) => r == Ok::<Self, StoreError>(k),
                None => r matches Err(e) && unknown_spelling(e, "unknown visible brain role: "@, value@),
            },
    {
        if str_eq(value, "owner") {
            Ok(VisibleBrainRole::Owner)
        } else if str_eq(value, "personal_agent") {
            Ok(VisibleBrainRole::PersonalAgent)
        } else if str_eq(value, "admin") {
            Ok(VisibleBrainRole::Admin)
        } else if str_eq(value, "member") {
            Ok(VisibleBrainRole::Member)
        } else if str_eq(value, "guest") {
            Ok(VisibleBrainRole::Guest)
        } else if str_eq(value, "invited") {
            Ok(VisibleBrainRole::Invited)
        } else {
            Err(unknown("unknown visible brain role: ", value))
        }
    }

    /// Every role parses back from its own spelling, and distinct roles have
    /// distinct spellings.
    pub proof fn lemma_spelling_round_trip(self, other: Self)
        ensures
            Self::from_spelling(self.spelling()) == Some(self),
            self.spelling() == other.spelling() ==> self == other,
    {
        reveal_strlit("owner");
        reveal_strlit("personal_agent");
        reveal_strlit("admin");
        reveal_strlit("member");
        reveal_strlit("guest");
        reveal_strlit("invited");
        assert("owner"@[0] != "admin"@[0]);
        assert("owner"@[0] != "guest"@[0]);
        assert("admin"@[0] != "guest"@[0]);
        assert("owner"@.len() != "personal_agent"@.len());
        assert("owner"@.len() != "member"@.len());
        assert("owner"@.len() != "invited"@.len());
        assert("personal_agent"@.len() != "admin"@.len());
        assert("personal_agent"@.len() != "member"@.len());
        assert("personal_agent"@.len() != "guest"@.len());
        assert("personal_agent"@.len() != "invited"@.len());
        assert("admin"@.len() != "member"@.len());
        assert("admin"@.len() != "invited"@.len());
        assert("member"@.len() != "guest"@.len());
        assert("member"@.len() != "invited"@.len());
        assert("guest"@.len() != "invited"@.len());
    }
}

/// Result of granting one identity the current Folder Key.
#[derive(Debug, Clone, Copy, PartialEq, Eq, Structural)]
pub enum GrantFolderAccessOutcome {
    /// Access and its current-version key grant were added.
    Granted,
    /// The identity already had effective access and the current-version grant.
    AlreadyHasAccess,
}

/// Direction of a shared-folder relationship relative to one Brain.
#[derive(Debug, Clone, Copy, PartialEq, Eq, Structural)]
pub enum SharedFolderDirection {
    /// The Brain is the source that shares one of its Folders.
    Source,
    /// The Brain is the destination that mounts a shared Folder.
    Destination,
}

/// Client-visible mounted Folder projection state.
#[derive(Debug, Clone, Copy, PartialEq, Eq, Structural)]
pub enum MountedFolderState {
    /// Actor can open the mounted source Folder.
    Available,
    /// Mount exists, but the actor lacks source access or a current grant.
    Locked,
    /// Source connection has been revoked.
    Revoked,
}

/// Standing that redeeming a capability Invite Token confers.
#[derive(Debug, Clone, Copy, PartialEq, Eq, Structural)]
pub enum BrainInviteTokenRole {
    /// Brain Membership.
    Member,
    /// Brain Membership and Organization Brain Admin standing.
    Admin,
}

} // verus!
