//! Folder Key Grant validation. Grants are opaque envelopes: the store checks
//! their metadata, issuer, Folder, key version and recipients, never keys.
use vstd::prelude::*;

use crate::error::{broken, is_broken, StoreError};
use crate::faults::{first_fault, lemma_first_fault_end, lemma_first_fault_start, lemma_first_fault_step};
use crate::kinds::{BrainKind, FolderAccessMode};

use crate::model::{
    find_folder, folder_with_id, brain_is_admin, brain_is_owner, is_admin, is_owner, seq_has,
    texts_contain, Brain, Folder, FolderKeyGrantMetadata,
};
use crate::text::{is_blank, is_printable_text, str_eq, text_is_blank, text_is_printable};

verus! {

/// A Folder Key Grant the bootstrap output requires.
#[derive(Debug, Clone, PartialEq, Eq)]
pub struct RequiredFolderKeyGrant {
    pub folder_id: String,
    pub recipient_user_id: String,
    pub key_version: u32,
}

/// View of an optional identity.
pub open spec fn opt_view(o: Option<&str>) -> Option<Seq<char>> {
    match o {
        Some(s) => Some(s@),
        None => None,
    }
}

/// Why a grant's metadata is unacceptable, if it is.
pub open spec fn grant_metadata_fault(g: FolderKeyGrantMetadata) -> Option<Seq<char>> {
    if !is_printable_text(g.id@) {
        Some("grant id must be non-empty and printable"@)
    } else if g.format@ != "NIP-59"@ {
        Some("folder key grants must use NIP-59 format"@)
    } else if is_blank(g.wrapped_event_json@) {
        Some("folder key grant wrapped event JSON is required"@)
    } else {
        None
    }
}

/// Why the grant's issuer may not issue grants in the Brain, if it may not.
pub open spec fn issuer_fault(
    brain: Brain,
    g: FolderKeyGrantMetadata,
    personal_agent: Option<Seq<char>>,
) -> Option<Seq<char>> {
    match brain.kind {
        BrainKind::Personal => if !is_owner(brain, g.issuer_npub@) && personal_agent != Some(
            g.issuer_npub@,
        ) {
            Some("personal brain grants must be issued by the owner or Personal Agent"@)
        } else {
            None
        },
        BrainKind::Organization => if !is_admin(brain, g.issuer_npub@) {
            Some("organization folder grants must be issued by a brain admin"@)
        } else {
            None
        },
    }
}

/// Why a grant does not belong to the Folder's current key, if it does not.
pub open spec fn folder_grant_fault(
    brain: Brain,
    folder: Folder,
    g: FolderKeyGrantMetadata,
    personal_agent: Option<Seq<char>>,
) -> Option<Seq<char>> {
    if grant_metadata_fault(g) is Some {
        grant_metadata_fault(g)
    } else if issuer_fault(brain, g, personal_agent) is Some {
        issuer_fault(brain, g, personal_agent)
    } else if g.folder_id@ != folder.id@ {
        Some("grant folder id must match folder metadata"@)
    } else if g.key_version != folder.current_key_version {
        Some("grant key version must match folder current key version"@)
    } else {
        None
    }
}

pub open spec fn folder_grant_check(
    brain: Brain,
    folder: Folder,
    personal_agent: Option<Seq<char>>,
) -> spec_fn(FolderKeyGrantMetadata) -> Option<Seq<char>> {
    |g: FolderKeyGrantMetadata| folder_grant_fault(brain, folder, g, personal_agent)
}

/// Some grant is issued to the recipient.
pub open spec fn grants_recipient(gs: Seq<FolderKeyGrantMetadata>, u: Seq<char>) -> bool {
    exists|i: int| 0 <= i < gs.len() && (#[trigger] gs[i]).recipient_npub@ == u
}

/// The grants' recipients are exactly the required recipients.
pub open spec fn recipients_match(gs: Seq<FolderKeyGrantMetadata>, required: Seq<String>) -> bool {
    forall|u: Seq<char>| grants_recipient(gs, u) <==> seq_has(required, u)
}

/// Outcome of checking grants against a required recipient set once each
/// grant passed its own checks.
pub open spec fn recipient_outcome(
    r: Result<(), StoreError>,
    gs: Seq<FolderKeyGrantMetadata>,
    required: Seq<String>,
    mismatch: Seq<char>,
) -> bool {
    if exists|u: Seq<char>| seq_has(required, u) && !grants_recipient(gs, u) {
        r matches Err(StoreError::MissingRequiredGrant { recipient_user_id }) && seq_has(
            required,
            recipient_user_id@,
        ) && !grants_recipient(gs, recipient_user_id@)
    } else if !recipients_match(gs, required) {
        r matches Err(e) && is_broken(e, mismatch)
    } else {
        r is Ok
    }
}

pub fn validate_grant_metadata(grant: &FolderKeyGrantMetadata) -> (r: Result<(), StoreError>)
    ensures
        match grant_metadata_fault(*grant) {
            None => r is Ok,
            Some(m) => r matches Err(e) && is_broken(e, m),
        },
{
    if !text_is_printable(grant.id.as_str()) {
        return Err(broken("grant id must be non-empty and printable"));
    }
    if !str_eq(grant.format.as_str(), "NIP-59") {
        return Err(broken("folder key grants must use NIP-59 format"));
    }
    if text_is_blank(grant.wrapped_event_json.as_str()) {
        return Err(broken("folder key grant wrapped event JSON is required"));
    }
    Ok(())
}

pub fn validate_grant_issuer(
    brain: &Brain,
    grant: &FolderKeyGrantMetadata,
    personal_agent: Option<&str>,
) -> (r: Result<(), StoreError>)
    ensures
        match issuer_fault(*brain, *grant, opt_view(personal_agent)) {
            None => r is Ok,
            Some(m) => r matches Err(e) && is_broken(e, m),
        },
{
    match brain.kind {
        BrainKind::Personal => {
            let is_agent = match personal_agent {
                Some(a) => str_eq(a, grant.issuer_npub.as_str()),
                None => false,
            };
            if !brain_is_owner(brain, grant.issuer_npub.as_str()) && !is_agent {
                return Err(
                    broken("personal brain grants must be issued by the owner or Personal Agent"),
                );
            }
        },
        BrainKind::Organization => {
            if !brain_is_admin(brain, grant.issuer_npub.as_str()) {
                return Err(broken("organization folder grants must be issued by a brain admin"));
            }
        },
    }
    Ok(())
}

pub fn grants_have_recipient(grants: &Vec<FolderKeyGrantMetadata>, u: &str) -> (r: bool)
    ensures
        r == grants_recipient(grants@, u@),
{
    let mut i: usize = 0;
    while i < grants.len()
        invariant
            i <= grants.len(),
            forall|j: int| 0 <= j < i ==> (#[trigger] grants@[j]).recipient_npub@ != u@,
        decreases grants.len() - i,
    {
        if str_eq(grants[i].recipient_npub.as_str(), u) {
            return true;
        }
        i += 1;
    }
    false
}

/// Checks that grants name exactly the required recipients: the first
/// required recipient without a grant is reported, then any extra recipient.
pub fn check_recipients(
    grants: &Vec<FolderKeyGrantMetadata>,
    required: &Vec<String>,
    mismatch: &str,
) -> (r: Result<(), StoreError>)
    ensures
        recipient_outcome(r, grants@, required@, mismatch@),
{
    let mut k: usize = 0;
    while k < required.len()
        invariant
            k <= required.len(),
            forall|j: int| 0 <= j < k ==> grants_recipient(grants@, (#[trigger] required@[j])@),
        decreases required.len() - k,
    {
        if !grants_have_recipient(grants, required[k].as_str()) {
            let ghost u = required@[k as int]@;
            assert(seq_has(required@, u) && !grants_recipient(grants@, u));
            return Err(StoreError::MissingRequiredGrant { recipient_user_id: required[k].clone() });
        }
        k += 1;
    }
    assert forall|u: Seq<char>| seq_has(required@, u) implies grants_recipient(grants@, u) by {
        let j = choose|j: int| 0 <= j < required@.len() && (#[trigger] required@[j])@ == u;
    }
    let mut i: usize = 0;
    while i < grants.len()
        invariant
            i <= grants.len(),
            forall|j: int| 0 <= j < i ==> seq_has(required@, (#[trigger] grants@[j]).recipient_npub@),
            forall|u: Seq<char>| seq_has(required@, u) ==> grants_recipient(grants@, u),
        decreases grants.len() - i,
    {
        if !texts_contain(required, grants[i].recipient_npub.as_str()) {
            let ghost u = grants@[i as int].recipient_npub@;
            assert(grants_recipient(grants@, u) && !seq_has(required@, u));
            assert(!recipients_match(grants@, required@));
            assert(!(exists|v: Seq<char>| seq_has(required@, v) && !grants_recipient(grants@, v)));
            return Err(broken(mismatch));
        }
        i += 1;
    }
    assert forall|u: Seq<char>| grants_recipient(grants@, u) implies seq_has(required@, u) by {
        let j = choose|j: int| 0 <= j < grants@.len() && (#[trigger] grants@[j]).recipient_npub@ == u;
    }
    Ok(())
}

/// Validate that grants are exactly the current-key grants a Folder's
/// required recipients need.
pub fn validate_folder_grants(
    brain: &Brain,
    folder: &Folder,
    required_recipients: &Vec<String>,
    grants: &Vec<FolderKeyGrantMetadata>,
    personal_agent: Option<&str>,
) -> (r: Result<(), StoreError>)
    ensures
        match first_fault(grants@, folder_grant_check(*brain, *folder, opt_view(personal_agent))) {
            Some(m) => r matches Err(e) && is_broken(e, m),
            None => recipient_outcome(
                r,
                grants@,
                required_recipients@,
                "grant recipients must exactly match required recipients"@,
            ),
        },
{
    let ghost check = folder_grant_check(*brain, *folder, opt_view(personal_agent));
    proof {
        lemma_first_fault_start(grants@, check);
    }
    let mut i: usize = 0;
    while i < grants.len()
        invariant
            i <= grants.len(),
            check == folder_grant_check(*brain, *folder, opt_view(personal_agent)),
            first_fault(grants@, check) == first_fault(grants@.skip(i as int), check),
        decreases grants.len() - i,
    {
        proof {
            lemma_first_fault_step(grants@, check, i as int);
        }
        let grant = &grants[i];
        validate_grant_metadata(grant)?;
        validate_grant_issuer(brain, grant, personal_agent)?;
        if !str_eq(grant.folder_id.as_str(), folder.id.as_str()) {
            return Err(broken("grant folder id must match folder metadata"));
        }
        if grant.key_version != folder.current_key_version {
            return Err(broken("grant key version must match folder current key version"));
        }
        i += 1;
    }
    proof {
        lemma_first_fault_end(grants@, check);
    }
    check_recipients(
        grants,
        required_recipients,
        "grant recipients must exactly match required recipients",
    )
}

/// One Folder of an Email Invite Bootstrap scope and the key version the
/// claim must be granted at.
#[derive(Debug, Clone, PartialEq, Eq)]
pub struct EmailInviteScopeFolder {
    pub folder_id: String,
    pub access: FolderAccessMode,
    pub key_version: u32,
}

/// The grant's (Folder, recipient, key version).
pub open spec fn grant_triple(g: FolderKeyGrantMetadata) -> (Seq<char>, Seq<char>, u32) {
    (g.folder_id@, g.recipient_npub@, g.key_version)
}

/// Some grant carries the triple.
pub open spec fn grants_triple(gs: Seq<FolderKeyGrantMetadata>, t: (Seq<char>, Seq<char>, u32)) -> bool {
    exists|i: int| 0 <= i < gs.len() && grant_triple(#[trigger] gs[i]) == t
}

/// No two grants carry the same triple.
pub open spec fn grant_triples_distinct(gs: Seq<FolderKeyGrantMetadata>) -> bool {
    forall|i: int, j: int|
        0 <= i < j < gs.len() ==> grant_triple(#[trigger] gs[i]) != grant_triple(#[trigger] gs[j])
}

pub open spec fn required_triple(r: RequiredFolderKeyGrant) -> (Seq<char>, Seq<char>, u32) {
    (r.folder_id@, r.recipient_user_id@, r.key_version)
}

/// Why a bootstrap grant is unacceptable on its own, if it is.
pub open spec fn bootstrap_grant_fault(brain: Brain, g: FolderKeyGrantMetadata) -> Option<Seq<char>> {
    if grant_metadata_fault(g) is Some {
        grant_metadata_fault(g)
    } else {
        issuer_fault(brain, g, None)
    }
}

pub open spec fn bootstrap_grant_check(brain: Brain) -> spec_fn(FolderKeyGrantMetadata) -> Option<
    Seq<char>,
> {
    |g: FolderKeyGrantMetadata| bootstrap_grant_fault(brain, g)
}

/// Outcome of checking bootstrap grants against the required grant set.
pub open spec fn required_grants_outcome(
    r: Result<(), StoreError>,
    brain: Brain,
    required: Seq<RequiredFolderKeyGrant>,
    grants: Seq<FolderKeyGrantMetadata>,
) -> bool {
    if exists|i: int|
        0 <= i < required.len() && !grants_triple(grants, required_triple(#[trigger] required[i])) {
        exists|i: int|
            0 <= i < required.len() && !grants_triple(grants, required_triple(#[trigger] required[i]))
                && (forall|j: int|
                0 <= j < i ==> grants_triple(grants, required_triple(#[trigger] required[j])))
                && r == Err::<(), StoreError>(
                StoreError::MissingRequiredGrant { recipient_user_id: required[i].recipient_user_id },
            )
    } else if grants.len() != required.len() || !grant_triples_distinct(grants) {
        r matches Err(e) && is_broken(e, "bootstrap grants must exactly match required recipients"@)
    } else {
        match first_fault(grants, bootstrap_grant_check(brain)) {
            Some(m) => r matches Err(e) && is_broken(e, m),
            None => r is Ok,
        }
    }
}

pub(crate) fn grants_have_triple(grants: &Vec<FolderKeyGrantMetadata>, folder_id: &str, recipient: &str, key_version: u32) -> (r: bool)
    ensures
        r == grants_triple(grants@, (folder_id@, recipient@, key_version)),
{
    let mut i: usize = 0;
    while i < grants.len()
        invariant
            i <= grants.len(),
            forall|j: int| 0 <= j < i ==> grant_triple(#[trigger] grants@[j]) != (folder_id@, recipient@, key_version),
        decreases grants.len() - i,
    {
        let g = &grants[i];
        if str_eq(g.folder_id.as_str(), folder_id) && str_eq(g.recipient_npub.as_str(), recipient)
            && g.key_version == key_version {
            return true;
        }
        i += 1;
    }
    false
}

pub(crate) fn grant_triples_are_distinct(grants: &Vec<FolderKeyGrantMetadata>) -> (r: bool)
    ensures
        r == grant_triples_distinct(grants@),
{
    let mut j: usize = 0;
    while j < grants.len()
        invariant
            j <= grants.len(),
            forall|a: int, b: int|
                0 <= a < b < j ==> grant_triple(#[trigger] grants@[a]) != grant_triple(#[trigger] grants@[b]),
        decreases grants.len() - j,
    {
        let mut i: usize = 0;
        while i < j
            invariant
                i <= j < grants.len(),
                forall|a: int, b: int|
                    0 <= a < b < j ==> grant_triple(#[trigger] grants@[a]) != grant_triple(#[trigger] grants@[b]),
                forall|a: int| 0 <= a < i ==> grant_triple(#[trigger] grants@[a]) != grant_triple(grants@[j as int]),
            decreases j - i,
        {
            let (x, y) = (&grants[i], &grants[j]);
            if str_eq(x.folder_id.as_str(), y.folder_id.as_str()) && str_eq(
                x.recipient_npub.as_str(),
                y.recipient_npub.as_str(),
            ) && x.key_version == y.key_version {
                assert(grant_triple(grants@[i as int]) == grant_triple(grants@[j as int]));
                return false;
            }
            i += 1;
        }
        j += 1;
    }
    true
}

/// Validate bootstrap grants: every required grant is present, the grants are
/// exactly the required set, and each is well-formed and admin/owner-issued.
pub fn validate_required_grants(
    brain: &Brain,
    required: &Vec<RequiredFolderKeyGrant>,
    grants: &Vec<FolderKeyGrantMetadata>,
) -> (r: Result<(), StoreError>)
    ensures
        required_grants_outcome(r, *brain, required@, grants@),
{
    let mut k: usize = 0;
    while k < required.len()
        invariant
            k <= required.len(),
            forall|j: int| 0 <= j < k ==> grants_triple(grants@, required_triple(#[trigger] required@[j])),
        decreases required.len() - k,
    {
        let q = &required[k];
        if !grants_have_triple(grants, q.folder_id.as_str(), q.recipient_user_id.as_str(), q.key_version) {
            return Err(StoreError::MissingRequiredGrant { recipient_user_id: q.recipient_user_id.clone() });
        }
        k += 1;
    }
    if grants.len() != required.len() || !grant_triples_are_distinct(grants) {
        return Err(broken("bootstrap grants must exactly match required recipients"));
    }
    let ghost check = bootstrap_grant_check(*brain);
    proof {
        lemma_first_fault_start(grants@, check);
    }
    let mut i: usize = 0;
    while i < grants.len()
        invariant
            i <= grants.len(),
            check == bootstrap_grant_check(*brain),
            first_fault(grants@, check) == first_fault(grants@.skip(i as int), check),
            forall|j: int| 0 <= j < required.len() ==> grants_triple(grants@, required_triple(#[trigger] required@[j])),
            grants.len() == required.len(),
            grant_triples_distinct(grants@),
        decreases grants.len() - i,
    {
        proof {
            lemma_first_fault_step(grants@, check, i as int);
        }
        validate_grant_metadata(&grants[i])?;
        validate_grant_issuer(brain, &grants[i], None)?;
        i += 1;
    }
    proof {
        lemma_first_fault_end(grants@, check);
    }
    Ok(())
}

/// Why a grant does not fit a connection's Folder, key version, issuer and
/// recipient, if it does not.
pub open spec fn connection_grant_fault(
    g: FolderKeyGrantMetadata,
    folder_id: Seq<char>,
    key_version: u32,
    issuer: Seq<char>,
    recipient: Seq<char>,
) -> Option<Seq<char>> {
    if grant_metadata_fault(g) is Some {
        grant_metadata_fault(g)
    } else if g.folder_id@ != folder_id || g.key_version != key_version || g.issuer_npub@ != issuer
        || g.recipient_npub@ != recipient {
        Some("connection grant must match folder, current key version, issuer, and recipient"@)
    } else {
        None
    }
}

pub fn validate_connection_grant(
    grant: &FolderKeyGrantMetadata,
    folder_id: &str,
    current_key_version: u32,
    issuer_npub: &str,
    recipient_npub: &str,
) -> (r: Result<(), StoreError>)
    ensures
        match connection_grant_fault(*grant, folder_id@, current_key_version, issuer_npub@, recipient_npub@) {
            None => r is Ok,
            Some(m) => r matches Err(e) && is_broken(e, m),
        },
{
    validate_grant_metadata(grant)?;
    if !str_eq(grant.folder_id.as_str(), folder_id) || grant.key_version != current_key_version
        || !str_eq(grant.issuer_npub.as_str(), issuer_npub) || !str_eq(
        grant.recipient_npub.as_str(),
        recipient_npub,
    ) {
        return Err(
            broken("connection grant must match folder, current key version, issuer, and recipient"),
        );
    }
    Ok(())
}

/// Why a rotation grant does not fit the rotated Folder and issuer, if it does not.
pub open spec fn rotation_grant_fault(folder: Folder, g: FolderKeyGrantMetadata, issuer: Seq<char>) -> Option<Seq<char>> {
    if grant_metadata_fault(g) is Some {
        grant_metadata_fault(g)
    } else if g.folder_id@ != folder.id@ || g.key_version != folder.current_key_version
        || g.issuer_npub@ != issuer {
        Some("connection rotation grants must match folder, key version, and issuer"@)
    } else {
        None
    }
}

pub open spec fn rotation_grant_check(folder: Folder, issuer: Seq<char>) -> spec_fn(FolderKeyGrantMetadata) -> Option<Seq<char>> {
    |g: FolderKeyGrantMetadata| rotation_grant_fault(folder, g, issuer)
}

/// Validate Mount rotation grants: each fits the rotated Folder and issuer,
/// and together they name exactly the remaining recipients.
pub fn validate_connection_rotation_grants(
    folder: &Folder,
    required_recipients: &Vec<String>,
    grants: &Vec<FolderKeyGrantMetadata>,
    issuer_npub: &str,
) -> (r: Result<(), StoreError>)
    ensures
        match first_fault(grants@, rotation_grant_check(*folder, issuer_npub@)) {
            Some(m) => r matches Err(e) && is_broken(e, m),
            None => if recipients_match(grants@, required_recipients@) {
                r is Ok
            } else {
                r matches Err(e) && is_broken(e, "connection rotation grants must exactly match remaining recipients"@)
            },
        },
{
    let ghost check = rotation_grant_check(*folder, issuer_npub@);
    proof {
        lemma_first_fault_start(grants@, check);
    }
    let mut i: usize = 0;
    while i < grants.len()
        invariant
            i <= grants.len(),
            check == rotation_grant_check(*folder, issuer_npub@),
            first_fault(grants@, check) == first_fault(grants@.skip(i as int), check),
        decreases grants.len() - i,
    {
        proof {
            lemma_first_fault_step(grants@, check, i as int);
        }
        let g = &grants[i];
        validate_grant_metadata(g)?;
        if !str_eq(g.folder_id.as_str(), folder.id.as_str()) || g.key_version != folder.current_key_version
            || !str_eq(g.issuer_npub.as_str(), issuer_npub) {
            return Err(broken("connection rotation grants must match folder, key version, and issuer"));
        }
        i += 1;
    }
    proof {
        lemma_first_fault_end(grants@, check);
    }
    match check_recipients(grants, required_recipients, "connection rotation grants must exactly match remaining recipients") {
        Ok(()) => Ok(()),
        Err(_) => Err(broken("connection rotation grants must exactly match remaining recipients")),
    }
}

/// Some scope item names the (Folder, key version).
pub open spec fn scope_has_pair(scope: Seq<EmailInviteScopeFolder>, p: (Seq<char>, u32)) -> bool {
    exists|i: int| 0 <= i < scope.len() && ((#[trigger] scope[i]).folder_id@, scope[i].key_version) == p
}

/// Some grant names the (Folder, key version).
pub open spec fn grants_have_pair(gs: Seq<FolderKeyGrantMetadata>, p: (Seq<char>, u32)) -> bool {
    exists|i: int| 0 <= i < gs.len() && ((#[trigger] gs[i]).folder_id@, gs[i].key_version) == p
}

/// Why a scope item is not current in the Brain, if it is not: a missing
/// Folder (`None` reason) or a stale key version.
pub open spec fn scope_item_current(brain: Brain, item: EmailInviteScopeFolder) -> Option<bool> {
    match folder_with_id(brain.folders@, item.folder_id@) {
        None => None,
        Some(f) => Some(f.current_key_version == item.key_version),
    }
}

/// The first scope item that is missing or stale, with whether it is missing.
pub open spec fn first_stale_scope_item(brain: Brain, scope: Seq<EmailInviteScopeFolder>) -> Option<(int, bool)>
    decreases scope.len(),
{
    if scope.len() == 0 {
        None
    } else {
        match first_stale_scope_item(brain, scope.drop_last()) {
            Some(p) => Some(p),
            None => match scope_item_current(brain, scope.last()) {
                None => Some((scope.len() - 1, true)),
                Some(true) => None,
                Some(false) => Some((scope.len() - 1, false)),
            },
        }
    }
}

/// Report whether some scope item's Folder Key has moved on; a scope Folder
/// that no longer exists is an error.
pub fn email_bootstrap_scope_stale(brain: &Brain, scope: &Vec<EmailInviteScopeFolder>) -> (r: Result<bool, StoreError>)
    ensures
        match first_stale_scope_item(*brain, scope@) {
            None => r == Ok::<bool, StoreError>(false),
            Some((i, true)) => r == Err::<bool, StoreError>(StoreError::MissingFolder { folder_id: scope@[i].folder_id }),
            Some((_, false)) => r == Ok::<bool, StoreError>(true),
        },
{
    let mut i: usize = 0;
    while i < scope.len()
        invariant
            i <= scope.len(),
            first_stale_scope_item(*brain, scope@.take(i as int)) is None,
        decreases scope.len() - i,
    {
        assert(scope@.take(i + 1).drop_last() =~= scope@.take(i as int));
        assert(scope@.take(i + 1).last() == scope@[i as int]);
        let item = &scope[i];
        match find_folder(&brain.folders, item.folder_id.as_str()) {
            None => {
                proof { lemma_stale_prefix(*brain, scope@, i as int + 1); }
                return Err(StoreError::MissingFolder { folder_id: item.folder_id.clone() });
            },
            Some(k) => {
                if brain.folders[k].current_key_version != item.key_version {
                    proof { lemma_stale_prefix(*brain, scope@, i as int + 1); }
                    return Ok(true);
                }
            },
        }
        i += 1;
    }
    assert(scope@.take(i as int) =~= scope@);
    Ok(false)
}

/// A stale item found in a prefix is the first stale item of the whole scope.
pub proof fn lemma_stale_prefix(brain: Brain, scope: Seq<EmailInviteScopeFolder>, n: int)
    requires
        0 <= n <= scope.len(),
        first_stale_scope_item(brain, scope.take(n)) is Some,
    ensures
        first_stale_scope_item(brain, scope) == first_stale_scope_item(brain, scope.take(n)),
    decreases scope.len() - n,
{
    if n < scope.len() {
        assert(scope.take(n + 1).drop_last() =~= scope.take(n));
        lemma_stale_prefix(brain, scope, n + 1);
    } else {
        assert(scope.take(n) =~= scope);
    }
}

/// The grants name exactly the scope's (Folder, key version) pairs.
pub open spec fn claim_pairs_match(scope: Seq<EmailInviteScopeFolder>, gs: Seq<FolderKeyGrantMetadata>) -> bool {
    forall|p: (Seq<char>, u32)| scope_has_pair(scope, p) <==> grants_have_pair(gs, p)
}

/// Why a claim grant is unacceptable, if it is.
pub open spec fn claim_grant_fault(g: FolderKeyGrantMetadata, claimant: Seq<char>) -> Option<Seq<char>> {
    if grant_metadata_fault(g) is Some {
        grant_metadata_fault(g)
    } else if g.recipient_npub@ != claimant || g.issuer_npub@ != claimant {
        Some("claim grants must be issued to and by the claiming npub"@)
    } else {
        None
    }
}

pub open spec fn claim_grant_check(claimant: Seq<char>) -> spec_fn(FolderKeyGrantMetadata) -> Option<Seq<char>> {
    |g: FolderKeyGrantMetadata| claim_grant_fault(g, claimant)
}

fn scope_contains_pair(scope: &Vec<EmailInviteScopeFolder>, folder_id: &str, key_version: u32) -> (r: bool)
    ensures
        r == scope_has_pair(scope@, (folder_id@, key_version)),
{
    let mut i: usize = 0;
    while i < scope.len()
        invariant
            i <= scope.len(),
            forall|j: int| 0 <= j < i ==> ((#[trigger] scope@[j]).folder_id@, scope@[j].key_version) != (folder_id@, key_version),
        decreases scope.len() - i,
    {
        if str_eq(scope[i].folder_id.as_str(), folder_id) && scope[i].key_version == key_version {
            return true;
        }
        i += 1;
    }
    false
}

fn grants_contain_pair(grants: &Vec<FolderKeyGrantMetadata>, folder_id: &str, key_version: u32) -> (r: bool)
    ensures
        r == grants_have_pair(grants@, (folder_id@, key_version)),
{
    let mut i: usize = 0;
    while i < grants.len()
        invariant
            i <= grants.len(),
            forall|j: int| 0 <= j < i ==> ((#[trigger] grants@[j]).folder_id@, grants@[j].key_version) != (folder_id@, key_version),
        decreases grants.len() - i,
    {
        if str_eq(grants[i].folder_id.as_str(), folder_id) && grants[i].key_version == key_version {
            return true;
        }
        i += 1;
    }
    false
}

fn claim_pairs_equal(scope: &Vec<EmailInviteScopeFolder>, grants: &Vec<FolderKeyGrantMetadata>) -> (r: bool)
    ensures
        r == claim_pairs_match(scope@, grants@),
{
    let mut i: usize = 0;
    while i < scope.len()
        invariant
            i <= scope.len(),
            forall|j: int| 0 <= j < i ==> grants_have_pair(grants@, ((#[trigger] scope@[j]).folder_id@, scope@[j].key_version)),
        decreases scope.len() - i,
    {
        if !grants_contain_pair(grants, scope[i].folder_id.as_str(), scope[i].key_version) {
            assert(scope_has_pair(scope@, (scope@[i as int].folder_id@, scope@[i as int].key_version)));
            return false;
        }
        i += 1;
    }
    let mut k: usize = 0;
    while k < grants.len()
        invariant
            k <= grants.len(),
            forall|j: int| 0 <= j < scope.len() ==> grants_have_pair(grants@, ((#[trigger] scope@[j]).folder_id@, scope@[j].key_version)),
            forall|j: int| 0 <= j < k ==> scope_has_pair(scope@, ((#[trigger] grants@[j]).folder_id@, grants@[j].key_version)),
        decreases grants.len() - k,
    {
        if !scope_contains_pair(scope, grants[k].folder_id.as_str(), grants[k].key_version) {
            assert(grants_have_pair(grants@, (grants@[k as int].folder_id@, grants@[k as int].key_version)));
            return false;
        }
        k += 1;
    }
    assert forall|p: (Seq<char>, u32)| scope_has_pair(scope@, p) <==> grants_have_pair(grants@, p) by {
        if scope_has_pair(scope@, p) {
            let j = choose|j: int| 0 <= j < scope@.len() && ((#[trigger] scope@[j]).folder_id@, scope@[j].key_version) == p;
        }
        if grants_have_pair(grants@, p) {
            let j = choose|j: int| 0 <= j < grants@.len() && ((#[trigger] grants@[j]).folder_id@, grants@[j].key_version) == p;
        }
    }
    true
}

/// Validate the grants an email claimant supplies: exactly the scope's
/// (Folder, key version) pairs, each still current, each issued to and by the
/// claimant.
pub fn validate_email_claim_grants(
    brain: &Brain,
    scope: &Vec<EmailInviteScopeFolder>,
    claimant: &str,
    grants: &Vec<FolderKeyGrantMetadata>,
) -> (r: Result<(), StoreError>)
    ensures
        if !claim_pairs_match(scope@, grants@) || grants.len() != scope.len() {
            r matches Err(e) && is_broken(e, "claim grants must exactly match the email bootstrap scope"@)
        } else {
            match first_stale_scope_item(*brain, scope@) {
                Some((i, true)) => r == Err::<(), StoreError>(StoreError::MissingFolder { folder_id: scope@[i].folder_id }),
                Some((_, false)) => r matches Err(e) && is_broken(e, "email bootstrap scope is stale for current Folder Key versions"@),
                None => match first_fault(grants@, claim_grant_check(claimant@)) {
                    Some(m) => r matches Err(e) && is_broken(e, m),
                    None => r is Ok,
                },
            }
        },
{
    if !claim_pairs_equal(scope, grants) || grants.len() != scope.len() {
        return Err(broken("claim grants must exactly match the email bootstrap scope"));
    }
    if email_bootstrap_scope_stale(brain, scope)? {
        return Err(broken("email bootstrap scope is stale for current Folder Key versions"));
    }
    let ghost check = claim_grant_check(claimant@);
    proof {
        lemma_first_fault_start(grants@, check);
    }
    let mut i: usize = 0;
    while i < grants.len()
        invariant
            i <= grants.len(),
            check == claim_grant_check(claimant@),
            first_fault(grants@, check) == first_fault(grants@.skip(i as int), check),
            claim_pairs_match(scope@, grants@),
            grants.len() == scope.len(),
            first_stale_scope_item(*brain, scope@) is None,
        decreases grants.len() - i,
    {
        proof {
            lemma_first_fault_step(grants@, check, i as int);
        }
        validate_grant_metadata(&grants[i])?;
        if !str_eq(grants[i].recipient_npub.as_str(), claimant) || !str_eq(grants[i].issuer_npub.as_str(), claimant) {
            return Err(broken("claim grants must be issued to and by the claiming npub"));
        }
        i += 1;
    }
    proof {
        lemma_first_fault_end(grants@, check);
    }
    Ok(())
}

} // verus!
