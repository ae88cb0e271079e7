//! Invitations, Share Links and their lifecycle checks: required texts,
//! link ids, RFC 3339 timestamps, bounded offer expiry, availability to one
//! recipient, and invited email canonicalisation.
use vstd::prelude::*;

use crate::error::{is_broken, StoreError};
use crate::grants::EmailInviteScopeFolder;
use crate::kinds::{BrainInvitationTargetKind, LinkStatus, ProvenanceOriginKind};
use crate::model::FolderKeyGrantMetadata;

use crate::text::{
    ascii_lowered, blank_or_control, has_control, str_eq, text_has_control, text_is_blank,
    to_ascii_lowercase, trim_text, trimmed,
};

verus! {

/// The instant an RFC 3339 text names, in nanoseconds since the Unix epoch,
/// as `time::OffsetDateTime::parse(text, &Rfc3339)` reads it; nothing when
/// the text does not parse.
pub uninterp spec fn rfc3339_instant(text: Seq<char>) -> Option<int>;

/// Parses an RFC 3339 timestamp with `time::OffsetDateTime::parse` and
/// converts the parsed instant to nanoseconds since the Unix epoch with
/// `unix_timestamp_nanos`. Trusted: the result is the named instant of the
/// text; which texts parse is not stated.
#[verifier::external_body]
fn parse_rfc3339(text: &str) -> (r: Option<i128>)
    ensures
        match r {
            Some(n) => rfc3339_instant(text@) == Some(n as int),
            None => rfc3339_instant(text@) is None,
        },
{
    match time::OffsetDateTime::parse(text, &time::format_description::well_known::Rfc3339) {
        Ok(instant) => Some(instant.unix_timestamp_nanos()),
        Err(_) => None,
    }
}

/// Two instants, as parsed, show an expiry that has passed: the expiry is
/// not after the current time, or either instant is missing.
pub open spec fn instants_expired(expires_at: Option<int>, now: Option<int>) -> bool {
    match (expires_at, now) {
        (Some(e), Some(n)) => e <= n,
        _ => true,
    }
}

/// A parsed instant as an integer.
pub open spec fn instant_view(t: Option<i128>) -> Option<int> {
    match t {
        Some(x) => Some(x as int),
        None => None,
    }
}

/// A lifecycle timestamp has passed. An empty expiry never expires; an
/// expiry or a clock reading that does not parse counts as expired, so
/// malformed state fails closed.
pub open spec fn expired(expires_at: Seq<char>, now: Seq<char>) -> bool {
    if expires_at.len() == 0 {
        false
    } else {
        instants_expired(rfc3339_instant(expires_at), rfc3339_instant(now))
    }
}

/// Decides expiry from the two parsed instants (nanoseconds since the Unix
/// epoch, or nothing where a text did not parse).
pub fn parsed_instants_expired(expires_at: Option<i128>, now: Option<i128>) -> (r: bool)
    ensures
        r == instants_expired(instant_view(expires_at), instant_view(now)),
{
    match (expires_at, now) {
        (Some(e), Some(n)) => e <= n,
        _ => true,
    }
}

/// True when the expiry is not after the current time.
pub fn timestamp_expired(expires_at: &str, now: &str) -> (r: bool)
    ensures
        r == expired(expires_at@, now@),
{
    if expires_at.is_empty() {
        return false;
    }
    let e = parse_rfc3339(expires_at);
    let n = parse_rfc3339(now);
    parsed_instants_expired(e, n)
}

/// The text is the field name followed by the suffix.
pub open spec fn field_reason(field: Seq<char>, suffix: Seq<char>) -> Seq<char> {
    field + suffix
}

fn field_error(field: &str, suffix: &str) -> (e: StoreError)
    ensures
        is_broken(e, field_reason(field@, suffix@)),
{
    let mut reason = field.to_owned();
    reason.append(suffix);
    StoreError::BrokenInvariant { reason }
}

/// A required text is present: not blank and free of control characters.
pub fn validate_required_text(field: &str, value: &str) -> (r: Result<(), StoreError>)
    ensures
        match r {
            Ok(()) => !blank_or_control(value@),
            Err(e) => blank_or_control(value@) && is_broken(e, field_reason(field@, " is required"@)),
        },
{
    if text_is_blank(value) || text_has_control(value) {
        return Err(field_error(field, " is required"));
    }
    Ok(())
}

/// A link id is not blank and free of control characters.
pub fn validate_link_id(field: &str, value: &str) -> (r: Result<(), StoreError>)
    ensures
        match r {
            Ok(()) => !blank_or_control(value@),
            Err(e) => blank_or_control(value@) && is_broken(
                e,
                field_reason(field@, " must be non-empty and printable"@),
            ),
        },
{
    if text_is_blank(value) || text_has_control(value) {
        return Err(field_error(field, " must be non-empty and printable"));
    }
    Ok(())
}

/// A link timestamp is printable and an RFC 3339 timestamp.
pub fn validate_link_timestamp(field: &str, value: &str) -> (r: Result<(), StoreError>)
    ensures
        match r {
            Ok(()) => !blank_or_control(value@) && rfc3339_instant(value@) is Some,
            Err(e) => if blank_or_control(value@) {
                is_broken(e, field_reason(field@, " must be non-empty and printable"@))
            } else {
                rfc3339_instant(value@) is None && is_broken(
                    e,
                    field_reason(field@, " must be an RFC3339 timestamp"@),
                )
            },
        },
{
    validate_link_id(field, value)?;
    if parse_rfc3339(value).is_none() {
        return Err(field_error(field, " must be an RFC3339 timestamp"));
    }
    Ok(())
}

/// One hour and thirty days, in nanoseconds.
pub open spec fn min_offer_nanos() -> int {
    3_600_000_000_000
}

pub open spec fn max_offer_nanos() -> int {
    2_592_000_000_000_000
}

/// Outcome of checking an offer's expiry against its creation time: both
/// timestamps valid (expiry checked first), and the expiry between one hour
/// and thirty days after creation.
pub open spec fn bounded_expiry_outcome(r: Result<(), StoreError>, expires_at: Seq<char>, created_at: Seq<char>) -> bool {
    if blank_or_control(expires_at) {
        r matches Err(e) && is_broken(e, "expiresAt must be non-empty and printable"@)
    } else if rfc3339_instant(expires_at) is None {
        r matches Err(e) && is_broken(e, "expiresAt must be an RFC3339 timestamp"@)
    } else if blank_or_control(created_at) {
        r matches Err(e) && is_broken(e, "createdAt must be non-empty and printable"@)
    } else if rfc3339_instant(created_at) is None {
        r matches Err(e) && is_broken(e, "createdAt must be an RFC3339 timestamp"@)
    } else {
        let d = rfc3339_instant(expires_at)->0 - rfc3339_instant(created_at)->0;
        if d < min_offer_nanos() || d > max_offer_nanos() {
            r matches Err(e) && is_broken(e, "invitation expiry must be between one hour and thirty days"@)
        } else {
            r is Ok
        }
    }
}

/// An offer expires between one hour and thirty days after its creation.
pub fn validate_bounded_offer_expiry(expires_at: &str, created_at: &str) -> (r: Result<(), StoreError>)
    ensures
        bounded_expiry_outcome(r, expires_at@, created_at@),
{
    proof {
        reveal_strlit("expiresAt");
        reveal_strlit("createdAt");
        reveal_strlit(" must be non-empty and printable");
        reveal_strlit(" must be an RFC3339 timestamp");
        reveal_strlit("expiresAt must be non-empty and printable");
        reveal_strlit("expiresAt must be an RFC3339 timestamp");
        reveal_strlit("createdAt must be non-empty and printable");
        reveal_strlit("createdAt must be an RFC3339 timestamp");
    }
    proof {
        assert("expiresAt"@ + " must be non-empty and printable"@ =~= "expiresAt must be non-empty and printable"@);
        assert("expiresAt"@ + " must be an RFC3339 timestamp"@ =~= "expiresAt must be an RFC3339 timestamp"@);
        assert("createdAt"@ + " must be non-empty and printable"@ =~= "createdAt must be non-empty and printable"@);
        assert("createdAt"@ + " must be an RFC3339 timestamp"@ =~= "createdAt must be an RFC3339 timestamp"@);
    }
    if let Err(e) = validate_link_timestamp("expiresAt", expires_at) {
        return Err(e);
    }
    if let Err(e) = validate_link_timestamp("createdAt", created_at) {
        return Err(e);
    }
    let expires = match parse_rfc3339(expires_at) {
        Some(n) => n,
        None => {
            return Err(StoreError::BrokenInvariant { reason: "expiresAt must be an RFC3339 timestamp".to_owned() });
        },
    };
    let created = match parse_rfc3339(created_at) {
        Some(n) => n,
        None => {
            return Err(StoreError::BrokenInvariant { reason: "createdAt must be an RFC3339 timestamp".to_owned() });
        },
    };
    let min: i128 = 3_600_000_000_000;
    let max: i128 = 2_592_000_000_000_000;
    let too_short = created > i128::MAX - min || expires < created + min;
    let too_long = created <= i128::MAX - max && expires > created + max;
    if too_short || too_long {
        return Err(
            StoreError::BrokenInvariant {
                reason: "invitation expiry must be between one hour and thirty days".to_owned(),
            },
        );
    }
    Ok(())
}

/// An Invite Token hash is 64 lower case hexadecimal digits.
pub open spec fn is_token_hash(s: Seq<char>) -> bool {
    s.len() == 64 && forall|i: int| 0 <= i < s.len() ==> ('0' <= #[trigger] s[i] <= '9' || 'a' <= s[i] <= 'f')
}

/// Only the SHA-256 hash of a raw Invite Token is stored: 64 lower case
/// hexadecimal digits.
pub fn validate_invite_token_hash(token_hash: &str) -> (r: Result<(), StoreError>)
    ensures
        match r {
            Ok(()) => is_token_hash(token_hash@),
            Err(e) => !is_token_hash(token_hash@) && is_broken(
                e,
                "brain invite token hash must be 64 lowercase hex characters"@,
            ),
        },
{
    let n = token_hash.unicode_len();
    let mut valid = n == 64;
    let mut i: usize = 0;
    while valid && i < n
        invariant
            n == token_hash@.len(),
            i <= n,
            valid ==> n == 64,
            valid ==> forall|j: int| 0 <= j < i ==> ('0' <= #[trigger] token_hash@[j] <= '9' || 'a' <= token_hash@[j] <= 'f'),
            !valid ==> !is_token_hash(token_hash@),
        decreases n - i,
    {
        let c = token_hash.get_char(i);
        if !(('0' <= c && c <= '9') || ('a' <= c && c <= 'f')) {
            valid = false;
        }
        i += 1;
    }
    if !valid {
        return Err(
            StoreError::BrokenInvariant {
                reason: "brain invite token hash must be 64 lowercase hex characters".to_owned(),
            },
        );
    }
    Ok(())
}

/// Index of the first '@', if any.
pub open spec fn first_at(s: Seq<char>) -> Option<int> {
    if exists|i: int| 0 <= i < s.len() && s[i] == '@' {
        Some(choose|i: int| 0 <= i < s.len() && s[i] == '@' && forall|j: int| 0 <= j < i ==> s[j] != '@')
    } else {
        None
    }
}

/// The canonical invited email: trimmed and ASCII lower case.
pub open spec fn canonical_email(value: Seq<char>) -> Seq<char> {
    ascii_lowered(trimmed(value))
}

/// UTF-8 length of a text in bytes.
pub open spec fn utf8_len(s: Seq<char>) -> nat {
    vstd::utf8::encode_utf8(s).len()
}

/// Outcome of canonicalising an invited email: the trimmed, ASCII lower case
/// text must hold an '@' with text on both sides of the first one, no
/// control characters, and at most 320 bytes.
pub open spec fn canonical_email_outcome(r: Result<String, StoreError>, value: Seq<char>) -> bool {
    let c = canonical_email(value);
    match first_at(c) {
        None => r matches Err(e) && is_broken(e, "invited email must be an email address"@),
        Some(at) => if at == 0 || at == c.len() - 1 || has_control(c) || utf8_len(c) > 320 {
            r matches Err(e) && is_broken(e, "invited email must be a printable email address"@)
        } else {
            r matches Ok(s) && s@ == c
        },
    }
}

/// Canonicalise an invited email for storage and comparison.
pub fn canonical_invited_email(value: &str) -> (r: Result<String, StoreError>)
    ensures
        canonical_email_outcome(r, value@),
{
    let lowered = to_ascii_lowercase(trim_text(value));
    let ghost c = lowered@;
    let s = lowered.as_str();
    let n = s.unicode_len();
    let mut at: usize = 0;
    while at < n && s.get_char(at) != '@'
        invariant
            n == c.len(),
            s@ == c,
            at <= n,
            forall|j: int| 0 <= j < at ==> c[j] != '@',
        decreases n - at,
    {
        at += 1;
    }
    if at == n {
        proof {
            assert(!exists|i: int| 0 <= i < c.len() && c[i] == '@');
        }
        return Err(StoreError::BrokenInvariant { reason: "invited email must be an email address".to_owned() });
    }
    proof {
        assert(c[at as int] == '@');
        let k = first_at(c)->0;
        assert(0 <= k < c.len() && c[k] == '@' && forall|j: int| 0 <= j < k ==> c[j] != '@');
        if k < at {
            assert(c[k] != '@');
        }
        if at < k {
            assert(c[at as int] != '@');
        }
    }
    if at == 0 || at == n - 1 || text_has_control(s) || s.as_bytes().len() > 320 {
        return Err(
            StoreError::BrokenInvariant { reason: "invited email must be a printable email address".to_owned() },
        );
    }
    proof {
        assert(first_at(c) == Some(at as int));
        assert(!has_control(c));
        assert(utf8_len(c) <= 320);
    }
    Ok(lowered)
}

/// Stored singleton Brain Invitation.
#[derive(Debug, Clone, PartialEq, Eq)]
pub struct StoredBrainInvitation {
    pub id: String,
    pub brain_id: String,
    pub target_kind: BrainInvitationTargetKind,
    /// Target user npub for npub-bound invitations, or claimed npub after email bootstrap claim.
    pub user_id: Option<String>,
    pub invited_email: Option<String>,
    pub invite_unwrap_npub: Option<String>,
    pub bootstrap_payload_hash: Option<String>,
    pub bootstrap_wrapped_event_json: Option<String>,
    pub bootstrap_authorization_event_json: Option<String>,
    pub bootstrap_scope: Vec<EmailInviteScopeFolder>,
    /// True when claim creates bounded Guest access instead of Brain Membership.
    pub folder_only: bool,
    pub claimed_by_npub: Option<String>,
    pub status: LinkStatus,
    pub invite_code: String,
    pub accept_path: String,
    /// Initial Folder Access metadata only.
    pub initial_folder_access: Vec<String>,
    pub created_by_npub: String,
    pub expires_at: String,
    pub created_at: String,
    pub updated_at: String,
    pub accepted_at: Option<String>,
    pub origin_ref: Option<String>,
    pub origin_kind: ProvenanceOriginKind,
    pub roster_revision: Option<i64>,
    /// True when accept returned an already-consumed result for the same target.
    pub duplicate_accept: bool,
}

/// One agent resolved into an Invitation Plan.
#[derive(Debug, Clone, PartialEq, Eq)]
pub struct StoredPlanAgent {
    /// Managed Agent email from the account roster.
    pub managed_agent_email: String,
    /// Resolved Agent Principal npub, when grant-ready.
    pub agent_npub: Option<String>,
    /// Roster status for the agent.
    pub status: String,
}

/// One participant excluded from an Invitation Plan with an explicit reason.
#[derive(Debug, Clone, PartialEq, Eq)]
pub struct StoredPlanExclusion {
    /// Email or npub of the excluded participant.
    pub ref_: String,
    /// Why the participant is not grant-ready.
    pub reason: String,
}

/// Stored immutable Invitation Plan.
#[derive(Debug, Clone, PartialEq, Eq)]
pub struct StoredInvitationPlan {
    pub id: String,
    pub brain_id: String,
    pub plan_hash: String,
    pub inviter_npub: String,
    pub workos_user_id: Option<String>,
    pub human_email: String,
    pub human_npub: Option<String>,
    pub agents: Vec<StoredPlanAgent>,
    pub exclusions: Vec<StoredPlanExclusion>,
    pub roster_revision: Option<i64>,
    pub committed: bool,
    pub expires_at: String,
    pub created_at: String,
    pub updated_at: String,
}

/// Stored npub-bound singleton Folder Share Link.
#[derive(Debug, Clone, PartialEq, Eq)]
pub struct StoredShareLink {
    pub id: String,
    pub brain_id: String,
    pub folder_id: String,
    pub recipient_npub: String,
    pub created_by_npub: String,
    pub status: LinkStatus,
    pub accept_path: String,
    pub expires_at: String,
    pub created_at: String,
    pub updated_at: String,
    pub accepted_at: Option<String>,
    /// Folder Key Grant material to insert at accept time.
    pub folder_key_grant: FolderKeyGrantMetadata,
    pub duplicate_accept: bool,
}

/// The error names an unavailable link of this kind.
pub open spec fn is_unavailable(e: StoreError, kind: Seq<char>) -> bool {
    e matches StoreError::UnavailableLink { kind: k } && k@ == kind
}

/// A Brain Invitation is available to a user: an npub invitation for that
/// user, still pending, not expired.
pub open spec fn invitation_available(inv: StoredBrainInvitation, user: Seq<char>, now: Seq<char>) -> bool {
    &&& inv.target_kind == BrainInvitationTargetKind::Npub
    &&& inv.user_id matches Some(u) && u@ == user
    &&& inv.status == LinkStatus::Pending
    &&& !expired(inv.expires_at@, now)
}

/// Only the invited user may accept a pending, unexpired npub invitation.
pub fn ensure_invitation_available(invitation: &StoredBrainInvitation, user_id: &str, now: &str) -> (r: Result<(), StoreError>)
    ensures
        match r {
            Ok(()) => invitation_available(*invitation, user_id@, now@),
            Err(e) => !invitation_available(*invitation, user_id@, now@) && is_unavailable(e, "brain invitation"@),
        },
{
    let for_user = match &invitation.user_id {
        Some(u) => str_eq(u.as_str(), user_id),
        None => false,
    };
    if invitation.target_kind != BrainInvitationTargetKind::Npub || !for_user || invitation.status != LinkStatus::Pending
        || timestamp_expired(invitation.expires_at.as_str(), now) {
        return Err(StoreError::UnavailableLink { kind: "brain invitation" });
    }
    Ok(())
}

/// A Share Link is available to its recipient while pending and unexpired.
pub open spec fn share_link_available(link: StoredShareLink, recipient: Seq<char>, now: Seq<char>) -> bool {
    &&& link.recipient_npub@ == recipient
    &&& link.status == LinkStatus::Pending
    &&& !expired(link.expires_at@, now)
}

/// Only the recipient may accept a pending, unexpired Share Link.
pub fn ensure_share_link_available(share_link: &StoredShareLink, recipient_npub: &str, now: &str) -> (r: Result<(), StoreError>)
    ensures
        match r {
            Ok(()) => share_link_available(*share_link, recipient_npub@, now@),
            Err(e) => !share_link_available(*share_link, recipient_npub@, now@) && is_unavailable(e, "Folder Invitation"@),
        },
{
    if !str_eq(share_link.recipient_npub.as_str(), recipient_npub) || share_link.status != LinkStatus::Pending
        || timestamp_expired(share_link.expires_at.as_str(), now) {
        return Err(StoreError::UnavailableLink { kind: "Folder Invitation" });
    }
    Ok(())
}

} // verus!
