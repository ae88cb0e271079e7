//! Store-level errors.
use vstd::prelude::*;

use crate::text::{append_decimal, decimal};

verus! {

/// Store-level validation and storage boundary errors.
#[derive(Debug, Clone, PartialEq, Eq)]
pub enum StoreError {
    /// Core domain validation failed.
    Core { message: String },
    /// The database returned an error.
    Database { message: String },
    /// A requested Brain does not exist.
    MissingBrain { brain_id: String },
    /// A requested Folder does not exist.
    MissingFolder { folder_id: String },
    /// A stable id already exists in the scoped table.
    DuplicateId { field: &'static str, value: String },
    /// Grant metadata did not include a required current recipient.
    MissingRequiredGrant { recipient_user_id: String },
    /// Stored state would violate Brain, member, admin, access, or grant rules.
    BrokenInvariant { reason: String },
    /// A sync record is malformed or violates request semantics.
    InvalidRecord { reason: String },
    /// A sync record lost optimistic concurrency.
    Conflict { reason: String, current_revision: Option<u64> },
    /// The client cursor is older than the retained floor.
    RebootstrapRequired { retention_floor: u64 },
    /// A singleton invitation or share link is unavailable to this actor.
    UnavailableLink { kind: &'static str },
    /// A mutation would exceed the governed accepted-state envelope.
    CapacityExceeded { limit: String, max: usize, current: usize },
}

/// The error is `BrokenInvariant` with exactly this reason.
pub open spec fn is_broken(e: StoreError, reason: Seq<char>) -> bool {
    e matches StoreError::BrokenInvariant { reason: r } && r@ == reason
}

/// The error is `MissingFolder` naming exactly this Folder.
pub open spec fn is_missing_folder(e: StoreError, folder_id: Seq<char>) -> bool {
    e matches StoreError::MissingFolder { folder_id: f } && f@ == folder_id
}

/// The error is `CapacityExceeded` for exactly this limit and counts.
pub open spec fn is_capacity(e: StoreError, limit: Seq<char>, max: int, current: int) -> bool {
    e matches StoreError::CapacityExceeded { limit: l, max: m, current: c } && l@ == limit && m == max
        && c == current
}

/// Builds a `BrokenInvariant` error with the given reason.
pub fn broken(reason: &str) -> (e: StoreError)
    ensures
        is_broken(e, reason@),
{
    StoreError::BrokenInvariant { reason: reason.to_owned() }
}

/// The text of an optional revision as `{:?}` writes it.
pub open spec fn debug_revision(r: Option<u64>) -> Seq<char> {
    match r {
        Some(n) => "Some("@ + decimal(n as nat) + ")"@,
        None => "None"@,
    }
}

/// The human-readable text of an error.
pub open spec fn error_message(e: StoreError) -> Seq<char> {
    match e {
        StoreError::Core { message } => message@,
        StoreError::Database { message } => "database error: "@ + message@,
        StoreError::MissingBrain { brain_id } => "missing brain: "@ + brain_id@,
        StoreError::MissingFolder { folder_id } => "missing folder: "@ + folder_id@,
        StoreError::DuplicateId { field, value } => "duplicate id for "@ + field@ + ": "@ + value@,
        StoreError::MissingRequiredGrant { recipient_user_id } => "missing required grant for "@
            + recipient_user_id@,
        StoreError::BrokenInvariant { reason } => "broken invariant: "@ + reason@,
        StoreError::InvalidRecord { reason } => "invalid record: "@ + reason@,
        StoreError::Conflict { reason, current_revision } => "sync conflict: "@ + reason@
            + "; current revision: "@ + debug_revision(current_revision),
        StoreError::RebootstrapRequired { retention_floor } => "rebootstrap required from retention floor "@
            + decimal(retention_floor as nat),
        StoreError::UnavailableLink { kind } => kind@ + " unavailable"@,
        StoreError::CapacityExceeded { limit, max, current } => "capacity exceeded for "@ + limit@
            + ": current "@ + decimal(current as nat) + ", maximum "@ + decimal(max as nat),
    }
}

impl StoreError {
    /// The human-readable text of the error, as shown to users and logs.
    pub fn message(&self) -> (r: String)
        ensures
            r@ == error_message(*self),
    {
        match self {
            StoreError::Core { message } => message.clone(),
            StoreError::Database { message } => {
                let mut r = "database error: ".to_owned();
                r.append(message.as_str());
                r
            },
            StoreError::MissingBrain { brain_id } => {
                let mut r = "missing brain: ".to_owned();
                r.append(brain_id.as_str());
                r
            },
            StoreError::MissingFolder { folder_id } => {
                let mut r = "missing folder: ".to_owned();
                r.append(folder_id.as_str());
                r
            },
            StoreError::DuplicateId { field, value } => {
                let mut r = "duplicate id for ".to_owned();
                r.append(*field);
                r.append(": ");
                r.append(value.as_str());
                r
            },
            StoreError::MissingRequiredGrant { recipient_user_id } => {
                let mut r = "missing required grant for ".to_owned();
                r.append(recipient_user_id.as_str());
                r
            },
            StoreError::BrokenInvariant { reason } => {
                let mut r = "broken invariant: ".to_owned();
                r.append(reason.as_str());
                r
            },
            StoreError::InvalidRecord { reason } => {
                let mut r = "invalid record: ".to_owned();
                r.append(reason.as_str());
                r
            },
            StoreError::Conflict { reason, current_revision } => {
                let mut r = "sync conflict: ".to_owned();
                r.append(reason.as_str());
                r.append("; current revision: ");
                match current_revision {
                    Some(n) => {
                        r.append("Some(");
                        append_decimal(&mut r, *n);
                        r.append(")");
                    },
                    None => {
                        r.append("None");
                    },
                }
                r
            },
            StoreError::RebootstrapRequired { retention_floor } => {
                let mut r = "rebootstrap required from retention floor ".to_owned();
                append_decimal(&mut r, *retention_floor);
                r
            },
            StoreError::UnavailableLink { kind } => {
                let mut r = (*kind).to_owned();
                r.append(" unavailable");
                r
            },
            StoreError::CapacityExceeded { limit, max, current } => {
                let mut r = "capacity exceeded for ".to_owned();
                r.append(limit.as_str());
                r.append(": current ");
                append_decimal(&mut r, *current as u64);
                r.append(", maximum ");
                append_decimal(&mut r, *max as u64);
                r
            },
        }
    }
}

} // verus!
