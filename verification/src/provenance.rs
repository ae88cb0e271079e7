//! Grant Provenance: how an access record came to exist.
use vstd::prelude::*;

use crate::kinds::ProvenanceOriginKind;

verus! {

/// Provenance stamped on one stored Folder Key Grant. Metadata only; it never
/// carries key material.
#[derive(Debug, Clone, PartialEq, Eq)]
pub struct GrantProvenance {
    /// Principal who delegated the access, when known.
    pub delegated_by_npub: Option<String>,
    /// Origin classification.
    pub origin_kind: ProvenanceOriginKind,
    /// Invitation id, Invitation Plan id, or approval id the grant came from.
    pub origin_ref: Option<String>,
    /// Account roster revision at write time, when roster-derived.
    pub roster_revision: Option<i64>,
}

impl GrantProvenance {
    /// Provenance for a grant written directly by an admin action.
    pub fn direct() -> (r: Self)
        ensures
            r.delegated_by_npub is None,
            r.origin_kind == ProvenanceOriginKind::Direct,
            r.origin_ref is None,
            r.roster_revision is None,
    {
        GrantProvenance {
            delegated_by_npub: None,
            origin_kind: ProvenanceOriginKind::Direct,
            origin_ref: None,
            roster_revision: None,
        }
    }

    /// Provenance for a grant written through a Brain Invitation.
    pub fn invitation(delegated_by_npub: String, origin_ref: String, roster_revision: Option<i64>) -> (r: Self)
        ensures
            r == (GrantProvenance {
                delegated_by_npub: Some(delegated_by_npub),
                origin_kind: ProvenanceOriginKind::Invitation,
                origin_ref: Some(origin_ref),
                roster_revision,
            }),
    {
        GrantProvenance {
            delegated_by_npub: Some(delegated_by_npub),
            origin_kind: ProvenanceOriginKind::Invitation,
            origin_ref: Some(origin_ref),
            roster_revision,
        }
    }

    /// Provenance for a grant written through a signed Approval Card.
    pub fn approval(delegated_by_npub: String, origin_ref: String, roster_revision: Option<i64>) -> (r: Self)
        ensures
            r == (GrantProvenance {
                delegated_by_npub: Some(delegated_by_npub),
                origin_kind: ProvenanceOriginKind::Approval,
                origin_ref: Some(origin_ref),
                roster_revision,
            }),
    {
        GrantProvenance {
            delegated_by_npub: Some(delegated_by_npub),
            origin_kind: ProvenanceOriginKind::Approval,
            origin_ref: Some(origin_ref),
            roster_revision,
        }
    }
}

/// Provenance stamped on one Brain Membership row.
#[derive(Debug, Clone, PartialEq, Eq)]
pub struct MemberProvenance {
    /// Principal who delegated the membership, when known.
    pub delegated_by_npub: Option<String>,
    /// Origin classification.
    pub origin_kind: ProvenanceOriginKind,
    /// Invitation id, Invitation Plan id, or approval id the membership came from.
    pub origin_ref: Option<String>,
}

impl MemberProvenance {
    /// Provenance for a membership written directly.
    pub fn direct() -> (r: Self)
        ensures
            r.delegated_by_npub is None,
            r.origin_kind == ProvenanceOriginKind::Direct,
            r.origin_ref is None,
    {
        MemberProvenance { delegated_by_npub: None, origin_kind: ProvenanceOriginKind::Direct, origin_ref: None }
    }

    /// Provenance for a membership written through a Brain Invitation.
    pub fn invitation(delegated_by_npub: String, origin_ref: String) -> (r: Self)
        ensures
            r == (MemberProvenance {
                delegated_by_npub: Some(delegated_by_npub),
                origin_kind: ProvenanceOriginKind::Invitation,
                origin_ref: Some(origin_ref),
            }),
    {
        MemberProvenance {
            delegated_by_npub: Some(delegated_by_npub),
            origin_kind: ProvenanceOriginKind::Invitation,
            origin_ref: Some(origin_ref),
        }
    }

    /// Provenance for a membership written through a signed Approval Card.
    pub fn approval(delegated_by_npub: String, origin_ref: String) -> (r: Self)
        ensures
            r == (MemberProvenance {
                delegated_by_npub: Some(delegated_by_npub),
                origin_kind: ProvenanceOriginKind::Approval,
                origin_ref: Some(origin_ref),
            }),
    {
        MemberProvenance {
            delegated_by_npub: Some(delegated_by_npub),
            origin_kind: ProvenanceOriginKind::Approval,
            origin_ref: Some(origin_ref),
        }
    }
}

} // verus!
