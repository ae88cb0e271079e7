//! Creating a Brain from a bootstrap output: the shape a loaded Brain must
//! have, the checks on Personal and Organization bootstraps and their
//! account cohorts, and when a repeated bootstrap is an exact retry.
use vstd::prelude::*;

use crate::error::{broken, is_broken, is_capacity, StoreError};
use crate::grants::{required_grants_outcome, validate_required_grants, RequiredFolderKeyGrant};
use crate::kinds::{BrainKind, FolderAccessMode, FolderRole};
use crate::model::{
    brain_is_admin, brain_is_member, is_admin, is_member, seq_has, texts_contain, Brain, BrainMember, Folder,
    FolderKeyGrantMetadata,
};
use crate::text::{
    eq_ignore_ascii_case, is_blank, same_ignoring_ascii_case, str_eq, text_is_blank, trim_text,
    trimmed,
};

verus! {

/// Core bootstrap output: the Brain to create and the grants it needs.
#[derive(Debug, Clone, PartialEq, Eq)]
pub struct BootstrapOutput {
    pub brain: Brain,
    pub required_key_grants: Vec<RequiredFolderKeyGrant>,
}

/// Verified display metadata for one canonical Nostr identity.
#[derive(Debug, Clone, PartialEq, Eq)]
pub struct IdentityAlias {
    /// Canonical NIP-19 public key.
    pub npub: String,
    /// Lowercase 64-character public key hex.
    pub hex_public_key: String,
    /// Preferred verified NIP-05 identifier.
    pub preferred_nip05: Option<String>,
    /// Timestamp when the NIP-05 binding was verified.
    pub nip05_verified_at: Option<String>,
    /// Relay hints from the verified NIP-05 document.
    pub nip05_relays: Vec<String>,
    /// Last time this alias row was refreshed.
    pub updated_at: String,
}

/// The optional text's view.
pub open spec fn opt_text(o: Option<String>) -> Option<Seq<char>> {
    match o {
        Some(s) => Some(s@),
        None => None,
    }
}

/// The shape a loaded Brain must have: a Personal Brain has an owner who is
/// its sole authority (no admins, not a member); an Organization Brain has
/// no owner and every admin is a member.
pub open spec fn loaded_brain_outcome(r: Result<(), StoreError>, brain: Brain) -> bool {
    match brain.kind {
        BrainKind::Personal => match brain.owner_user_id {
            None => r matches Err(e) && is_broken(e, "personal brain must have an owner"@),
            Some(owner) => if brain.admins.len() > 0 || is_member(brain, owner@) {
                r matches Err(e) && is_broken(
                    e,
                    "personal brain owner is sole admin authority and cannot be an ordinary member"@,
                )
            } else {
                r is Ok
            },
        },
        BrainKind::Organization => if brain.owner_user_id is Some {
            r matches Err(e) && is_broken(e, "organization brain must have no owner"@)
        } else if exists|i: int| 0 <= i < brain.admins.len() && !is_member(brain, (#[trigger] brain.admins@[i])@) {
            r matches Err(e) && is_broken(e, "every brain admin must also be a member"@)
        } else {
            r is Ok
        },
    }
}

/// Check the shape of a loaded or bootstrapped Brain.
#[verifier::loop_isolation(false)]
pub fn validate_loaded_brain(brain: &Brain) -> (r: Result<(), StoreError>)
    ensures
        loaded_brain_outcome(r, *brain),
{
    match brain.kind {
        BrainKind::Personal => {
            let owner = match &brain.owner_user_id {
                None => {
                    return Err(broken("personal brain must have an owner"));
                },
                Some(o) => o,
            };
            if brain.admins.len() > 0 || brain_is_member(brain, owner.as_str()) {
                return Err(broken("personal brain owner is sole admin authority and cannot be an ordinary member"));
            }
            Ok(())
        },
        BrainKind::Organization => {
            if brain.owner_user_id.is_some() {
                return Err(broken("organization brain must have no owner"));
            }
            let mut i: usize = 0;
            while i < brain.admins.len()
                invariant
                    i <= brain.admins.len(),
                    forall|k: int| 0 <= k < i ==> is_member(*brain, (#[trigger] brain.admins@[k])@),
                decreases brain.admins.len() - i,
            {
                if !brain_is_member(brain, brain.admins[i].as_str()) {
                    return Err(broken("every brain admin must also be a member"));
                }
                i += 1;
            }
            Ok(())
        },
    }
}

/// The values a Folder carries, as compared for an exact retry.
pub open spec fn folder_view(f: Folder) -> (Seq<char>, Seq<char>, FolderRole, FolderAccessMode, Option<Seq<char>>, Seq<char>, u32) {
    (f.id@, f.name@, f.role, f.access, opt_text(f.parent_folder_id), f.path@, f.current_key_version)
}

/// The values a Member carries: its id and its Folder access list.
pub open spec fn member_view(m: BrainMember) -> (Seq<char>, Seq<Seq<char>>) {
    (m.user_id@, m.folder_access@.map_values(|s: String| s@))
}

/// The values a grant carries.
pub open spec fn grant_view(g: FolderKeyGrantMetadata) -> (Seq<char>, Seq<char>, u32, Seq<char>, Seq<char>, Seq<char>, Seq<char>, Option<Seq<char>>, Seq<char>) {
    (
        g.id@,
        g.folder_id@,
        g.key_version,
        g.issuer_npub@,
        g.recipient_npub@,
        g.format@,
        g.wrapped_event_json@,
        opt_text(g.access_change_event_json),
        g.created_at@,
    )
}

/// The values of the Members.
pub open spec fn members_view(ms: Seq<BrainMember>) -> Seq<(Seq<char>, Seq<Seq<char>>)> {
    ms.map_values(|m: BrainMember| member_view(m))
}

/// A stored Brain is the one a bootstrap asks for: the same id, kind, name,
/// owner and Folders (in order), the same set of Members with their Folder
/// access, and the same set of admins.
pub open spec fn equivalent_brains(existing: Brain, requested: Brain) -> bool {
    &&& existing.id@ == requested.id@
    &&& existing.kind == requested.kind
    &&& existing.name@ == requested.name@
    &&& opt_text(existing.owner_user_id) == opt_text(requested.owner_user_id)
    &&& existing.folders@.map_values(|f: Folder| folder_view(f)) == requested.folders@.map_values(|f: Folder| folder_view(f))
    &&& forall|x: (Seq<char>, Seq<Seq<char>>)|
        #[trigger] members_view(existing.members@).contains(x) == members_view(requested.members@).contains(x)
    &&& forall|u: Seq<char>| #[trigger] seq_has(existing.admins@, u) == seq_has(requested.admins@, u)
}

fn opt_eq(a: &Option<String>, b: &Option<String>) -> (r: bool)
    ensures
        r == (opt_text(*a) == opt_text(*b)),
{
    match (a, b) {
        (Some(x), Some(y)) => str_eq(x.as_str(), y.as_str()),
        (None, None) => true,
        _ => false,
    }
}

fn texts_eq(a: &Vec<String>, b: &Vec<String>) -> (r: bool)
    ensures
        r == (a@.map_values(|s: String| s@) == b@.map_values(|s: String| s@)),
{
    if a.len() != b.len() {
        proof {
            assert(a@.map_values(|s: String| s@).len() != b@.map_values(|s: String| s@).len());
        }
        return false;
    }
    let mut i: usize = 0;
    while i < a.len()
        invariant
            i <= a.len(),
            a.len() == b.len(),
            forall|k: int| 0 <= k < i ==> (#[trigger] a@[k])@ == b@[k]@,
        decreases a.len() - i,
    {
        if !str_eq(a[i].as_str(), b[i].as_str()) {
            proof {
                assert(a@.map_values(|s: String| s@)[i as int] != b@.map_values(|s: String| s@)[i as int]);
            }
            return false;
        }
        i += 1;
    }
    proof {
        assert(a@.map_values(|s: String| s@) =~= b@.map_values(|s: String| s@));
    }
    true
}

pub(crate) fn folder_eq(a: &Folder, b: &Folder) -> (r: bool)
    ensures
        r == (folder_view(*a) == folder_view(*b)),
{
    str_eq(a.id.as_str(), b.id.as_str()) && str_eq(a.name.as_str(), b.name.as_str()) && a.role == b.role
        && a.access == b.access && opt_eq(&a.parent_folder_id, &b.parent_folder_id) && str_eq(
        a.path.as_str(),
        b.path.as_str(),
    ) && a.current_key_version == b.current_key_version
}

fn member_eq(a: &BrainMember, b: &BrainMember) -> (r: bool)
    ensures
        r == (member_view(*a) == member_view(*b)),
{
    str_eq(a.user_id.as_str(), b.user_id.as_str()) && texts_eq(&a.folder_access, &b.folder_access)
}

pub(crate) fn grant_eq(a: &FolderKeyGrantMetadata, b: &FolderKeyGrantMetadata) -> (r: bool)
    ensures
        r == (grant_view(*a) == grant_view(*b)),
{
    str_eq(a.id.as_str(), b.id.as_str()) && str_eq(a.folder_id.as_str(), b.folder_id.as_str())
        && a.key_version == b.key_version && str_eq(a.issuer_npub.as_str(), b.issuer_npub.as_str())
        && str_eq(a.recipient_npub.as_str(), b.recipient_npub.as_str()) && str_eq(
        a.format.as_str(),
        b.format.as_str(),
    ) && str_eq(a.wrapped_event_json.as_str(), b.wrapped_event_json.as_str()) && opt_eq(
        &a.access_change_event_json,
        &b.access_change_event_json,
    ) && str_eq(a.created_at.as_str(), b.created_at.as_str())
}

fn folders_eq(a: &Vec<Folder>, b: &Vec<Folder>) -> (r: bool)
    ensures
        r == (a@.map_values(|f: Folder| folder_view(f)) == b@.map_values(|f: Folder| folder_view(f))),
{
    if a.len() != b.len() {
        proof {
            assert(a@.map_values(|f: Folder| folder_view(f)).len() != b@.map_values(|f: Folder| folder_view(f)).len());
        }
        return false;
    }
    let mut i: usize = 0;
    while i < a.len()
        invariant
            i <= a.len(),
            a.len() == b.len(),
            forall|k: int| 0 <= k < i ==> folder_view(#[trigger] a@[k]) == folder_view(b@[k]),
        decreases a.len() - i,
    {
        if !folder_eq(&a[i], &b[i]) {
            proof {
                assert(a@.map_values(|f: Folder| folder_view(f))[i as int] != b@.map_values(|f: Folder| folder_view(f))[i as int]);
            }
            return false;
        }
        i += 1;
    }
    proof {
        assert(a@.map_values(|f: Folder| folder_view(f)) =~= b@.map_values(|f: Folder| folder_view(f)));
    }
    true
}

/// The stored grants are exactly the bootstrap's grants, in order.
pub fn grants_eq(a: &Vec<FolderKeyGrantMetadata>, b: &Vec<FolderKeyGrantMetadata>) -> (r: bool)
    ensures
        r == (a@.map_values(|g: FolderKeyGrantMetadata| grant_view(g)) == b@.map_values(
            |g: FolderKeyGrantMetadata| grant_view(g),
        )),
{
    if a.len() != b.len() {
        proof {
            assert(a@.map_values(|g: FolderKeyGrantMetadata| grant_view(g)).len() != b@.map_values(
                |g: FolderKeyGrantMetadata| grant_view(g),
            ).len());
        }
        return false;
    }
    let mut i: usize = 0;
    while i < a.len()
        invariant
            i <= a.len(),
            a.len() == b.len(),
            forall|k: int| 0 <= k < i ==> grant_view(#[trigger] a@[k]) == grant_view(b@[k]),
        decreases a.len() - i,
    {
        if !grant_eq(&a[i], &b[i]) {
            proof {
                assert(a@.map_values(|g: FolderKeyGrantMetadata| grant_view(g))[i as int] != b@.map_values(
                    |g: FolderKeyGrantMetadata| grant_view(g),
                )[i as int]);
            }
            return false;
        }
        i += 1;
    }
    proof {
        assert(a@.map_values(|g: FolderKeyGrantMetadata| grant_view(g)) =~= b@.map_values(
            |g: FolderKeyGrantMetadata| grant_view(g),
        ));
    }
    true
}

/// Every member of `a` (by its values) is a member of `b`.
fn members_within(a: &Vec<BrainMember>, b: &Vec<BrainMember>) -> (r: bool)
    ensures
        r == (forall|i: int| 0 <= i < a.len() ==> b@.map_values(|m: BrainMember| member_view(m)).contains(
            member_view(#[trigger] a@[i]),
        )),
{
    let ghost bv = b@.map_values(|m: BrainMember| member_view(m));
    let mut i: usize = 0;
    while i < a.len()
        invariant
            i <= a.len(),
            bv == b@.map_values(|m: BrainMember| member_view(m)),
            forall|k: int| 0 <= k < i ==> bv.contains(member_view(#[trigger] a@[k])),
        decreases a.len() - i,
    {
        let mut found = false;
        let mut j: usize = 0;
        while j < b.len()
            invariant
                j <= b.len(),
                i < a.len(),
                bv == b@.map_values(|m: BrainMember| member_view(m)),
                found ==> bv.contains(member_view(a@[i as int])),
                !found ==> forall|k: int| 0 <= k < j ==> bv[k] != member_view(a@[i as int]),
            decreases b.len() - j,
        {
            if !found && member_eq(&a[i], &b[j]) {
                assert(bv[j as int] == member_view(a@[i as int]));
                found = true;
            }
            j += 1;
        }
        if !found {
            proof {
                assert(!bv.contains(member_view(a@[i as int]))) by {
                    if bv.contains(member_view(a@[i as int])) {
                        let k = choose|k: int| 0 <= k < bv.len() && bv[k] == member_view(a@[i as int]);
                        assert(bv[k] != member_view(a@[i as int]));
                    }
                }
            }
            return false;
        }
        i += 1;
    }
    true
}

/// Every admin of `a` is an admin of `b`.
fn admins_within(a: &Vec<String>, b: &Vec<String>) -> (r: bool)
    ensures
        r == (forall|i: int| 0 <= i < a.len() ==> seq_has(b@, (#[trigger] a@[i])@)),
{
    let mut i: usize = 0;
    while i < a.len()
        invariant
            i <= a.len(),
            forall|k: int| 0 <= k < i ==> seq_has(b@, (#[trigger] a@[k])@),
        decreases a.len() - i,
    {
        if !texts_contain(b, a[i].as_str()) {
            return false;
        }
        i += 1;
    }
    true
}

/// True when the stored Brain is the one the bootstrap asks for.
pub fn equivalent_bootstrap_brain(existing: &Brain, requested: &Brain) -> (r: bool)
    ensures
        r == equivalent_brains(*existing, *requested),
{
    let ghost ev = members_view(existing.members@);
    let ghost rv = members_view(requested.members@);
    let same_members = members_within(&existing.members, &requested.members) && members_within(
        &requested.members,
        &existing.members,
    );
    proof {
        if same_members {
            assert forall|x: (Seq<char>, Seq<Seq<char>>)| #[trigger] ev.contains(x) == rv.contains(x) by {
                if ev.contains(x) {
                    let k = choose|k: int| 0 <= k < ev.len() && ev[k] == x;
                    assert(member_view(existing.members@[k]) == x);
                }
                if rv.contains(x) {
                    let k = choose|k: int| 0 <= k < rv.len() && rv[k] == x;
                    assert(member_view(requested.members@[k]) == x);
                }
            }
        } else {
            if !members_within_spec(existing.members@, rv) {
                let k = choose|k: int| 0 <= k < existing.members@.len() && !rv.contains(member_view(#[trigger] existing.members@[k]));
                assert(ev[k] == member_view(existing.members@[k]));
                assert(ev.contains(member_view(existing.members@[k])));
            } else {
                let k = choose|k: int| 0 <= k < requested.members@.len() && !ev.contains(member_view(#[trigger] requested.members@[k]));
                assert(rv[k] == member_view(requested.members@[k]));
                assert(rv.contains(member_view(requested.members@[k])));
            }
        }
    }
    let same_admins = admins_within(&existing.admins, &requested.admins) && admins_within(
        &requested.admins,
        &existing.admins,
    );
    proof {
        if same_admins {
            assert forall|u: Seq<char>| #[trigger] seq_has(existing.admins@, u) == seq_has(requested.admins@, u) by {
                if seq_has(existing.admins@, u) {
                    let k = choose|k: int| 0 <= k < existing.admins@.len() && (#[trigger] existing.admins@[k])@ == u;
                    assert(seq_has(requested.admins@, existing.admins@[k]@));
                }
                if seq_has(requested.admins@, u) {
                    let k = choose|k: int| 0 <= k < requested.admins@.len() && (#[trigger] requested.admins@[k])@ == u;
                    assert(seq_has(existing.admins@, requested.admins@[k]@));
                }
            }
        } else {
            if !(forall|i: int| 0 <= i < existing.admins.len() ==> seq_has(requested.admins@, (#[trigger] existing.admins@[i])@)) {
                let k = choose|k: int| 0 <= k < existing.admins.len() && !seq_has(requested.admins@, (#[trigger] existing.admins@[k])@);
                assert(seq_has(existing.admins@, existing.admins@[k]@));
            } else {
                let k = choose|k: int| 0 <= k < requested.admins.len() && !seq_has(existing.admins@, (#[trigger] requested.admins@[k])@);
                assert(seq_has(requested.admins@, requested.admins@[k]@));
            }
        }
    }
    str_eq(existing.id.as_str(), requested.id.as_str()) && existing.kind == requested.kind && str_eq(
        existing.name.as_str(),
        requested.name.as_str(),
    ) && opt_eq(&existing.owner_user_id, &requested.owner_user_id) && folders_eq(&existing.folders, &requested.folders)
        && same_members && same_admins
}

/// Every member of `a` (by its values) occurs in `bv`.
pub open spec fn members_within_spec(a: Seq<BrainMember>, bv: Seq<(Seq<char>, Seq<Seq<char>>)>) -> bool {
    forall|i: int| 0 <= i < a.len() ==> bv.contains(member_view(#[trigger] a[i]))
}

/// The two identity aliases of a Personal bootstrap name exactly the owner
/// and the agent, each with a verified email, the two emails distinct.
pub open spec fn personal_aliases_ok(aliases: Seq<IdentityAlias>, owner: Seq<char>, agent: Seq<char>) -> bool {
    &&& aliases.len() == 2
    &&& ((aliases[0].npub@ == owner && aliases[1].npub@ == agent) || (aliases[0].npub@ == agent
        && aliases[1].npub@ == owner))
    &&& aliases[0].preferred_nip05 is Some
    &&& aliases[1].preferred_nip05 is Some
    &&& opt_text(aliases[0].preferred_nip05) != opt_text(aliases[1].preferred_nip05)
}

/// Checks of a Personal Brain bootstrap before anything is written: a valid
/// Personal Brain with exactly its required grants, an owner and a distinct
/// Personal Agent, an actor that is one of them, and (outside a cohort
/// bootstrap) aliases that name both with verified emails.
pub open spec fn personal_bootstrap_outcome(
    r: Result<(), StoreError>,
    output: BootstrapOutput,
    grants: Seq<FolderKeyGrantMetadata>,
    agent: Seq<char>,
    created_by: Seq<char>,
    aliases: Seq<IdentityAlias>,
    with_cohort: bool,
) -> bool {
    let brain = output.brain;
    if !loaded_brain_outcome(Ok(()), brain) {
        loaded_brain_outcome(r, brain)
    } else if !required_grants_outcome(Ok(()), brain, output.required_key_grants@, grants) {
        r is Err && required_grants_outcome(r, brain, output.required_key_grants@, grants)
    } else if brain.kind != BrainKind::Personal {
        r matches Err(e) && is_broken(e, "Personal Agent bootstrap requires a personal brain"@)
    } else {
        match brain.owner_user_id {
            None => r matches Err(e) && is_broken(e, "Personal Agent bootstrap requires a brain owner"@),
            Some(owner) => if owner@ == agent {
                r matches Err(e) && is_broken(e, "Personal Agent must use a distinct Agent Principal"@)
            } else if created_by != owner@ && created_by != agent {
                r matches Err(e) && is_broken(e, "Personal Agent bootstrap actor must be the owner or agent"@)
            } else if aliases.len() > 0 && !with_cohort && !personal_aliases_ok(aliases, owner@, agent) {
                r matches Err(e) && is_broken(
                    e,
                    "Personal Agent bootstrap identities must name the owner and agent with verified emails"@,
                )
            } else {
                r is Ok
            },
        }
    }
}

/// Check a Personal Brain bootstrap before anything is written.
pub fn check_personal_bootstrap(
    output: &BootstrapOutput,
    grants: &Vec<FolderKeyGrantMetadata>,
    agent_npub: &str,
    created_by_npub: &str,
    identity_aliases: &Vec<IdentityAlias>,
    with_cohort: bool,
) -> (r: Result<(), StoreError>)
    ensures
        personal_bootstrap_outcome(r, *output, grants@, agent_npub@, created_by_npub@, identity_aliases@, with_cohort),
{
    let brain = &output.brain;
    if let Err(e) = validate_loaded_brain(brain) {
        return Err(e);
    }
    if let Err(e) = validate_required_grants(brain, &output.required_key_grants, grants) {
        return Err(e);
    }
    if brain.kind != BrainKind::Personal {
        return Err(broken("Personal Agent bootstrap requires a personal brain"));
    }
    let owner = match &brain.owner_user_id {
        None => {
            return Err(broken("Personal Agent bootstrap requires a brain owner"));
        },
        Some(o) => o.as_str(),
    };
    if str_eq(owner, agent_npub) {
        return Err(broken("Personal Agent must use a distinct Agent Principal"));
    }
    if !str_eq(created_by_npub, owner) && !str_eq(created_by_npub, agent_npub) {
        return Err(broken("Personal Agent bootstrap actor must be the owner or agent"));
    }
    if identity_aliases.len() > 0 && !with_cohort {
        let ok = identity_aliases.len() == 2 && ((str_eq(identity_aliases[0].npub.as_str(), owner) && str_eq(
            identity_aliases[1].npub.as_str(),
            agent_npub,
        )) || (str_eq(identity_aliases[0].npub.as_str(), agent_npub) && str_eq(
            identity_aliases[1].npub.as_str(),
            owner,
        ))) && match (&identity_aliases[0].preferred_nip05, &identity_aliases[1].preferred_nip05) {
            (Some(a), Some(b)) => !str_eq(a.as_str(), b.as_str()),
            _ => false,
        };
        if !ok {
            return Err(broken("Personal Agent bootstrap identities must name the owner and agent with verified emails"));
        }
    }
    Ok(())
}

/// What the store does when the owner already has a Personal Brain: the
/// same Brain with the same active agent is an exact retry (`Ok(true)`);
/// anything else is refused. `Ok(false)`: no Personal Brain yet, create it.
pub open spec fn personal_existing_outcome(
    r: Result<bool, StoreError>,
    brain_id: Seq<char>,
    agent: Seq<char>,
    existing_brain_id: Option<Seq<char>>,
    existing_agent: Option<Seq<char>>,
) -> bool {
    match existing_brain_id {
        None => r == Ok::<bool, StoreError>(false),
        Some(id) => if id != brain_id {
            r matches Err(e) && is_broken(e, "user already has a personal brain"@)
        } else {
            match existing_agent {
                Some(a) => if a == agent {
                    r == Ok::<bool, StoreError>(true)
                } else {
                    r matches Err(e) && is_broken(e, "personal brain already has a different personal agent"@)
                },
                None => r matches Err(e) && is_broken(e, "personal brain already exists without a personal agent"@),
            }
        },
    }
}

/// Decide a Personal bootstrap against the owner's existing Personal Brain.
pub fn personal_bootstrap_existing(
    brain_id: &str,
    agent_npub: &str,
    existing_brain_id: Option<&str>,
    existing_agent: Option<&str>,
) -> (r: Result<bool, StoreError>)
    ensures
        personal_existing_outcome(
            r,
            brain_id@,
            agent_npub@,
            match existing_brain_id {
                Some(s) => Some(s@),
                None => None,
            },
            match existing_agent {
                Some(s) => Some(s@),
                None => None,
            },
        ),
{
    match existing_brain_id {
        None => Ok(false),
        Some(id) => {
            if !str_eq(id, brain_id) {
                return Err(broken("user already has a personal brain"));
            }
            match existing_agent {
                Some(a) => if str_eq(a, agent_npub) {
                    Ok(true)
                } else {
                    Err(broken("personal brain already has a different personal agent"))
                },
                None => Err(broken("personal brain already exists without a personal agent")),
            }
        },
    }
}

/// Checks of an Organization Brain bootstrap before anything is written:
/// within the Folder and grant limits, a valid Organization Brain with
/// exactly its required grants, and aliases only for initial members.
pub open spec fn organization_bootstrap_outcome(
    r: Result<(), StoreError>,
    output: BootstrapOutput,
    grants: Seq<FolderKeyGrantMetadata>,
    aliases: Seq<IdentityAlias>,
    max_folders: int,
    max_grants: int,
) -> bool {
    let brain = output.brain;
    if brain.folders.len() > max_folders {
        r matches Err(e) && is_capacity(e, "brain_folders"@, max_folders, brain.folders.len() as int)
    } else if grants.len() > max_grants {
        r matches Err(e) && is_capacity(e, "folder_key_grants"@, max_grants, grants.len() as int)
    } else if !loaded_brain_outcome(Ok(()), brain) {
        loaded_brain_outcome(r, brain)
    } else if !required_grants_outcome(Ok(()), brain, output.required_key_grants@, grants) {
        r is Err && required_grants_outcome(r, brain, output.required_key_grants@, grants)
    } else if brain.kind == BrainKind::Personal {
        r matches Err(e) && is_broken(e, "Personal Brain bootstrap requires a Personal Agent"@)
    } else if exists|i: int| 0 <= i < aliases.len() && !is_member(brain, (#[trigger] aliases[i]).npub@) {
        r matches Err(e) && is_broken(e, "Organization Brain bootstrap identities must belong to initial members"@)
    } else {
        r is Ok
    }
}

/// Check an Organization Brain bootstrap before anything is written.
#[verifier::loop_isolation(false)]
pub fn check_organization_bootstrap(
    output: &BootstrapOutput,
    grants: &Vec<FolderKeyGrantMetadata>,
    identity_aliases: &Vec<IdentityAlias>,
    max_folders: usize,
    max_grants: usize,
) -> (r: Result<(), StoreError>)
    ensures
        organization_bootstrap_outcome(r, *output, grants@, identity_aliases@, max_folders as int, max_grants as int),
{
    let brain = &output.brain;
    if brain.folders.len() > max_folders {
        proof {
            reveal_strlit("brain_folders");
        }
        return Err(
            StoreError::CapacityExceeded { limit: "brain_folders".to_owned(), max: max_folders, current: brain.folders.len() },
        );
    }
    if grants.len() > max_grants {
        proof {
            reveal_strlit("folder_key_grants");
        }
        return Err(
            StoreError::CapacityExceeded { limit: "folder_key_grants".to_owned(), max: max_grants, current: grants.len() },
        );
    }
    if let Err(e) = validate_loaded_brain(brain) {
        return Err(e);
    }
    if let Err(e) = validate_required_grants(brain, &output.required_key_grants, grants) {
        return Err(e);
    }
    if brain.kind == BrainKind::Personal {
        return Err(broken("Personal Brain bootstrap requires a Personal Agent"));
    }
    let mut i: usize = 0;
    while i < identity_aliases.len()
        invariant
            i <= identity_aliases.len(),
            forall|k: int| 0 <= k < i ==> is_member(*brain, (#[trigger] identity_aliases@[k]).npub@),
        decreases identity_aliases.len() - i,
    {
        if !brain_is_member(brain, identity_aliases[i].npub.as_str()) {
            return Err(broken("Organization Brain bootstrap identities must belong to initial members"));
        }
        i += 1;
    }
    Ok(())
}

/// An Organization bootstrap against the Brain stored under its id: none
/// means create it (`Ok(false)`); an equivalent Brain with the same grants
/// is an exact retry (`Ok(true)`); anything else is a duplicate Brain id.
pub open spec fn organization_existing_outcome(
    r: Result<bool, StoreError>,
    existing: Option<(Brain, Seq<FolderKeyGrantMetadata>)>,
    requested: Brain,
    grants: Seq<FolderKeyGrantMetadata>,
) -> bool {
    match existing {
        None => r == Ok::<bool, StoreError>(false),
        Some((b, gs)) => if equivalent_brains(b, requested) && gs.map_values(|g: FolderKeyGrantMetadata| grant_view(g))
            == grants.map_values(|g: FolderKeyGrantMetadata| grant_view(g)) {
            r == Ok::<bool, StoreError>(true)
        } else {
            r matches Err(e) && e matches StoreError::DuplicateId { field, value } && field@ == "brain_id"@ && value@
                == requested.id@
        },
    }
}

/// What the store does when a Brain with the bootstrap's id exists: the
/// same Brain with the same grants is an exact retry (`Ok(true)`); another
/// Brain under that id is a duplicate id. `Ok(false)`: create it.
pub fn organization_bootstrap_existing(
    existing: Option<(&Brain, &Vec<FolderKeyGrantMetadata>)>,
    requested: &Brain,
    grants: &Vec<FolderKeyGrantMetadata>,
) -> (r: Result<bool, StoreError>)
    ensures
        organization_existing_outcome(
            r,
            match existing {
                Some((b, gs)) => Some((*b, gs@)),
                None => None,
            },
            *requested,
            grants@,
        ),
{
    match existing {
        None => Ok(false),
        Some((b, gs)) => {
            if equivalent_bootstrap_brain(b, requested) && grants_eq(gs, grants) {
                Ok(true)
            } else {
                Err(StoreError::DuplicateId { field: "brain_id", value: requested.id.clone() })
            }
        },
    }
}

/// One participant of an account cohort.
#[derive(Debug, Clone, PartialEq, Eq)]
pub struct CohortParticipant {
    pub npub: String,
    /// `human` or `account_agent`.
    pub relationship: String,
    pub nip05: String,
    pub name: String,
}

/// The account cohort a bootstrap anchors on its human.
#[derive(Debug, Clone, PartialEq, Eq)]
pub struct BootstrapAccountCohort {
    pub account_id: String,
    pub human_email: String,
    pub roster_revision: u64,
    pub participants: Vec<CohortParticipant>,
}

/// Some participant has the npub.
pub open spec fn has_cohort_participant(ps: Seq<CohortParticipant>, u: Seq<char>) -> bool {
    exists|i: int| 0 <= i < ps.len() && (#[trigger] ps[i]).npub@ == u
}

pub open spec fn is_human(p: CohortParticipant) -> bool {
    p.relationship@ == "human"@
}

pub open spec fn is_account_agent(p: CohortParticipant) -> bool {
    p.relationship@ == "account_agent"@
}

/// Exactly one participant, at index `h`, is the human.
pub open spec fn sole_human_at(ps: Seq<CohortParticipant>, h: int) -> bool {
    0 <= h < ps.len() && is_human(ps[h]) && forall|j: int| 0 <= j < ps.len() && j != h ==> !is_human(#[trigger] ps[j])
}

/// The cohort's human, when there is exactly one.
pub open spec fn cohort_human(c: BootstrapAccountCohort) -> Option<CohortParticipant> {
    if exists|h: int| sole_human_at(c.participants@, h) {
        Some(c.participants@[choose|h: int| sole_human_at(c.participants@, h)])
    } else {
        None
    }
}

/// A cohort names exactly one human, each participant once, a non-blank
/// account, and the human's address is the cohort's human email (trimmed,
/// ignoring ASCII case).
pub open spec fn cohort_well_formed(c: BootstrapAccountCohort) -> bool {
    match cohort_human(c) {
        None => false,
        Some(human) => {
            &&& forall|i: int, j: int|
                0 <= i < j < c.participants.len() ==> (#[trigger] c.participants@[i]).npub@ != (
                #[trigger] c.participants@[j]).npub@
            &&& !is_blank(c.account_id@)
            &&& same_ignoring_ascii_case(trimmed(human.nip05@), trimmed(c.human_email@))
        },
    }
}

/// Checks of an account cohort a bootstrap records: well formed; the human
/// owns a Personal Brain, or is the one admin of an Organization Brain whose
/// members include every participant; the roster revision fits the store.
pub open spec fn cohort_outcome(r: Result<(), StoreError>, brain: Brain, c: BootstrapAccountCohort) -> bool {
    if !cohort_well_formed(c) {
        r matches Err(e) && is_broken(e, "bootstrap account cohort is incomplete or ambiguous"@)
    } else {
        let human = cohort_human(c)->0;
        if brain.kind == BrainKind::Personal && opt_text(brain.owner_user_id) != Some(human.npub@) {
            r matches Err(e) && is_broken(e, "Personal Brain cohort human must be the owner"@)
        } else if brain.kind == BrainKind::Organization && (!is_admin(brain, human.npub@) || brain.admins.len() != 1
            || exists|i: int| 0 <= i < c.participants.len() && !is_member(brain, (#[trigger] c.participants@[i]).npub@)) {
            r matches Err(e) && is_broken(
                e,
                "Organization cohort bootstrap requires one human admin and all participants as members"@,
            )
        } else if c.roster_revision > i64::MAX {
            r matches Err(e) && is_broken(e, "roster revision exceeds SQLite integer range"@)
        } else {
            r is Ok
        }
    }
}

/// Index of the cohort's sole human, if there is exactly one.
fn sole_human(ps: &Vec<CohortParticipant>) -> (r: Option<usize>)
    ensures
        match r {
            Some(h) => sole_human_at(ps@, h as int),
            None => !exists|h: int| sole_human_at(ps@, h),
        },
{
    let mut found: Option<usize> = None;
    let mut i: usize = 0;
    while i < ps.len()
        invariant
            i <= ps.len(),
            match found {
                Some(h) => h < i && is_human(ps@[h as int]) && forall|j: int| 0 <= j < i && j != h ==> !is_human(#[trigger] ps@[j]),
                None => forall|j: int| 0 <= j < i ==> !is_human(#[trigger] ps@[j]),
            },
        decreases ps.len() - i,
    {
        proof {
            reveal_strlit("human");
        }
        if str_eq(ps[i].relationship.as_str(), "human") {
            match found {
                Some(h) => {
                    proof {
                        assert forall|k: int| !sole_human_at(ps@, k) by {
                            if sole_human_at(ps@, k) {
                                if k != h {
                                    assert(!is_human(ps@[h as int]));
                                } else {
                                    assert(!is_human(ps@[i as int]));
                                }
                            }
                        }
                    }
                    return None;
                },
                None => {
                    found = Some(i);
                },
            }
        }
        i += 1;
    }
    match found {
        Some(h) => Some(h),
        None => {
            proof {
                assert forall|k: int| !sole_human_at(ps@, k) by {
                    if sole_human_at(ps@, k) {
                        assert(is_human(ps@[k]));
                    }
                }
            }
            None
        },
    }
}

fn participants_are_distinct(ps: &Vec<CohortParticipant>) -> (r: bool)
    ensures
        r == forall|i: int, j: int| 0 <= i < j < ps.len() ==> (#[trigger] ps@[i]).npub@ != (#[trigger] ps@[j]).npub@,
{
    let mut j: usize = 0;
    while j < ps.len()
        invariant
            j <= ps.len(),
            forall|a: int, b: int| 0 <= a < b < j ==> (#[trigger] ps@[a]).npub@ != (#[trigger] ps@[b]).npub@,
        decreases ps.len() - j,
    {
        let mut i: usize = 0;
        while i < j
            invariant
                i <= j < ps.len(),
                forall|a: int, b: int| 0 <= a < b < j ==> (#[trigger] ps@[a]).npub@ != (#[trigger] ps@[b]).npub@,
                forall|a: int| 0 <= a < i ==> (#[trigger] ps@[a]).npub@ != ps@[j as int].npub@,
            decreases j - i,
        {
            if str_eq(ps[i].npub.as_str(), ps[j].npub.as_str()) {
                return false;
            }
            i += 1;
        }
        j += 1;
    }
    true
}

/// Check the account cohort a bootstrap records.
#[verifier::loop_isolation(false)]
pub fn check_bootstrap_cohort(brain: &Brain, cohort: &BootstrapAccountCohort) -> (r: Result<(), StoreError>)
    ensures
        cohort_outcome(r, *brain, *cohort),
{
    let h = match sole_human(&cohort.participants) {
        None => {
            return Err(broken("bootstrap account cohort is incomplete or ambiguous"));
        },
        Some(h) => h,
    };
    proof {
        let k = choose|k: int| sole_human_at(cohort.participants@, k);
        if k != h {
            assert(!is_human(cohort.participants@[k]));
        }
    }
    let human = &cohort.participants[h];
    if !participants_are_distinct(&cohort.participants) || text_is_blank(cohort.account_id.as_str())
        || !eq_ignore_ascii_case(trim_text(human.nip05.as_str()), trim_text(cohort.human_email.as_str())) {
        return Err(broken("bootstrap account cohort is incomplete or ambiguous"));
    }
    match brain.kind {
        BrainKind::Personal => {
            let owns = match &brain.owner_user_id {
                Some(o) => str_eq(o.as_str(), human.npub.as_str()),
                None => false,
            };
            if !owns {
                return Err(broken("Personal Brain cohort human must be the owner"));
            }
        },
        BrainKind::Organization => {
            if !brain_is_admin(brain, human.npub.as_str()) || brain.admins.len() != 1 {
                return Err(broken("Organization cohort bootstrap requires one human admin and all participants as members"));
            }
            let mut i: usize = 0;
            while i < cohort.participants.len()
                invariant
                    i <= cohort.participants.len(),
                    forall|k: int| 0 <= k < i ==> is_member(*brain, (#[trigger] cohort.participants@[k]).npub@),
                decreases cohort.participants.len() - i,
            {
                if !brain_is_member(brain, cohort.participants[i].npub.as_str()) {
                    return Err(broken("Organization cohort bootstrap requires one human admin and all participants as members"));
                }
                i += 1;
            }
        },
    }
    if cohort.roster_revision > 9223372036854775807u64 {
        return Err(broken("roster revision exceeds SQLite integer range"));
    }
    Ok(())
}

/// The first ready account agent of a Personal cohort bootstrap, which
/// becomes the Personal Agent.
pub fn cohort_primary_agent(cohort: &BootstrapAccountCohort) -> (r: Result<&CohortParticipant, StoreError>)
    ensures
        match r {
            Ok(p) => exists|i: int|
                0 <= i < cohort.participants.len() && *p == cohort.participants@[i] && is_account_agent(*p) && forall|j: int|
                    0 <= j < i ==> !is_account_agent(#[trigger] cohort.participants@[j]),
            Err(e) => (forall|i: int| 0 <= i < cohort.participants.len() ==> !is_account_agent(#[trigger] cohort.participants@[i]))
                && is_broken(e, "Personal Brain cohort bootstrap requires at least one ready agent"@),
        },
{
    let mut i: usize = 0;
    while i < cohort.participants.len()
        invariant
            i <= cohort.participants.len(),
            forall|j: int| 0 <= j < i ==> !is_account_agent(#[trigger] cohort.participants@[j]),
        decreases cohort.participants.len() - i,
    {
        proof {
            reveal_strlit("account_agent");
        }
        if str_eq(cohort.participants[i].relationship.as_str(), "account_agent") {
            return Ok(&cohort.participants[i]);
        }
        i += 1;
    }
    Err(broken("Personal Brain cohort bootstrap requires at least one ready agent"))
}

} // verus!
