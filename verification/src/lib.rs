//! Verified decision logic of the FiniteBrain authoritative store: record
//! kinds and their stored spellings, text validation, Brain access rules,
//! Folder Key Grant validation, key rotations, links, departures, Folder
//! subtree deletion and bootstrap checks.
use vstd::prelude::*;

pub mod access;
pub mod admissions;
pub mod agent_workspace;
pub mod approvals;
pub mod bootstrap;
pub mod cohorts;
pub mod collaboration;
pub mod columns;
pub mod controls;
pub mod db_errors;
pub mod deletion;
pub mod departure;
pub mod entitlements;
pub mod error;
pub mod export;
pub mod faults;
pub mod folder_ops;
pub mod grants;
pub mod invite_tokens;
pub mod kinds;
pub mod laws;
pub mod links;
pub mod member_removal;
pub mod membership;
pub mod model;
pub mod mounts;
pub mod peer_access;
pub mod peer_changes;
pub mod provenance;
pub mod reconciliation;
pub mod records;
pub mod rotation;
pub mod shared_removal;
pub mod text;

verus! {

/// Spelling of the crate name shown on workspace status surfaces.
pub open spec fn spec_crate_name() -> Seq<char> {
    "finite-brain-store"@
}

/// Returns the crate name used in workspace status surfaces.
pub fn crate_name() -> (name: &'static str)
    ensures
        name@ == spec_crate_name(),
{
    "finite-brain-store"
}

} // verus!
