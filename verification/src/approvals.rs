//! Human Approval requests: created pending, resolved once to a terminal
//! state.
use vstd::prelude::*;

use crate::error::{broken, is_broken, StoreError};
use crate::kinds::ApprovalRequestStatus;
use crate::links::{validate_link_id, field_reason};
use crate::membership::is_conflict;
use crate::text::blank_or_control;

verus! {

/// Stored human Approval request: the exact unsigned action payload a human
/// key holder can sign, plus the server-minted nonce and expiry.
#[derive(Debug, Clone, PartialEq, Eq)]
pub struct StoredBrainApprovalRequest {
    pub id: String,
    pub brain_id: String,
    /// Approval action kind ('invite-commit' or 'delegation-grant').
    pub action: String,
    pub payload_json: String,
    pub nonce: String,
    /// Expiry as unix seconds; the signed artifact carries the same value.
    pub expires_at_unix: u64,
    pub requested_by_npub: String,
    pub status: ApprovalRequestStatus,
    pub approval_event_id: Option<String>,
    pub resolved_by_npub: Option<String>,
    pub created_at: String,
    pub updated_at: String,
}

/// A new Approval request has a printable id and is pending.
pub fn check_new_approval_request(request: &StoredBrainApprovalRequest) -> (r: Result<(), StoreError>)
    ensures
        if blank_or_control(request.id@) {
            r matches Err(e) && is_broken(e, field_reason("brain_approval_request_id"@, " must be non-empty and printable"@))
        } else if request.status != ApprovalRequestStatus::Pending {
            r matches Err(e) && is_broken(e, "approval requests are created pending"@)
        } else {
            r is Ok
        },
{
    if let Err(e) = validate_link_id("brain_approval_request_id", request.id.as_str()) {
        return Err(e);
    }
    if request.status != ApprovalRequestStatus::Pending {
        return Err(broken("approval requests are created pending"));
    }
    Ok(())
}

/// An Approval request resolves only to a terminal state.
pub fn check_approval_resolution(resolution: ApprovalRequestStatus) -> (r: Result<(), StoreError>)
    ensures
        if resolution == ApprovalRequestStatus::Pending {
            r matches Err(e) && is_broken(e, "approval request resolution must be terminal"@)
        } else {
            r is Ok
        },
{
    if resolution == ApprovalRequestStatus::Pending {
        return Err(broken("approval request resolution must be terminal"));
    }
    Ok(())
}

/// A resolution that changed no pending request found it already resolved,
/// so card state never forks.
pub fn check_resolution_applied(updated_rows: usize) -> (r: Result<(), StoreError>)
    ensures
        if updated_rows == 0 {
            r matches Err(e) && is_conflict(e, "approval request is already resolved"@)
        } else {
            r is Ok
        },
{
    if updated_rows == 0 {
        return Err(StoreError::Conflict { reason: "approval request is already resolved".to_owned(), current_revision: None });
    }
    Ok(())
}

} // verus!
