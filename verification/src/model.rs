//! Plain-value model of a Brain as the store loads it, with the lookups the
//! access rules use.
use vstd::prelude::*;

use crate::kinds::{BrainKind, FolderAccessMode, FolderRole};

verus! {

/// One Brain Member and the Folders it holds explicit access to.
#[derive(Debug, Clone, PartialEq, Eq)]
pub struct BrainMember {
    pub user_id: String,
    pub folder_access: Vec<String>,
}

/// Folder metadata.
#[derive(Debug, Clone, PartialEq, Eq)]
pub struct Folder {
    pub id: String,
    pub name: String,
    pub role: FolderRole,
    pub access: FolderAccessMode,
    pub parent_folder_id: Option<String>,
    pub path: String,
    pub current_key_version: u32,
}

/// Core Brain metadata.
#[derive(Debug, Clone, PartialEq, Eq)]
pub struct Brain {
    pub id: String,
    pub kind: BrainKind,
    pub name: String,
    pub owner_user_id: Option<String>,
    pub admins: Vec<String>,
    pub members: Vec<BrainMember>,
    pub folders: Vec<Folder>,
}

/// Stored Folder Key Grant metadata. The encrypted key remains opaque to the server.
#[derive(Debug, Clone, PartialEq, Eq)]
pub struct FolderKeyGrantMetadata {
    /// Stable grant id.
    pub id: String,
    /// Folder id.
    pub folder_id: String,
    /// Folder Key version.
    pub key_version: u32,
    /// Issuer npub.
    pub issuer_npub: String,
    /// Recipient npub.
    pub recipient_npub: String,
    /// Envelope format, currently `NIP-59`.
    pub format: String,
    /// Stored wrapped event JSON.
    pub wrapped_event_json: String,
    /// Optional signed admin access-change event JSON.
    pub access_change_event_json: Option<String>,
    /// Creation timestamp.
    pub created_at: String,
}

/// One active Personal Agent relationship owned by a Personal Brain.
#[derive(Debug, Clone, PartialEq, Eq)]
pub struct PersonalAgent {
    pub brain_id: String,
    pub owner_npub: String,
    pub agent_npub: String,
    pub created_by_npub: String,
    pub created_at: String,
    pub updated_at: String,
}

/// Explicit access to one Folder.
#[derive(Debug, Clone, PartialEq, Eq)]
pub struct FolderAccessEntry {
    pub folder_id: String,
    pub user_ids: Vec<String>,
}

/// Reloaded Brain state with store-only metadata attached.
#[derive(Debug, Clone, PartialEq, Eq)]
pub struct StoredBrain {
    /// Core Brain metadata.
    pub brain: Brain,
    /// The one active Personal Agent relationship, when occupied.
    pub personal_agent: Option<PersonalAgent>,
    /// Explicit Guest access by Folder id, independent of native access mode.
    pub folder_access: Vec<FolderAccessEntry>,
    /// Stored Folder Key Grant metadata.
    pub grants: Vec<FolderKeyGrantMetadata>,
    /// Folders that still need current grants.
    pub setup_incomplete_folder_ids: Vec<String>,
}

/// The text occurs in the list.
pub open spec fn seq_has(v: Seq<String>, x: Seq<char>) -> bool {
    exists|i: int| 0 <= i < v.len() && (#[trigger] v[i])@ == x
}

/// The set of texts a list holds.
pub open spec fn text_set(v: Seq<String>) -> Set<Seq<char>> {
    Set::new(|x: Seq<char>| seq_has(v, x))
}

/// No text occurs twice.
pub open spec fn texts_distinct(v: Seq<String>) -> bool {
    forall|i: int, j: int| 0 <= i < j < v.len() ==> (#[trigger] v[i])@ != (#[trigger] v[j])@
}

/// Explicit access is keyed by Folder: a Folder id has at most one entry,
/// and an entry lists each reader once.
pub open spec fn folder_access_keyed(stored: StoredBrain) -> bool {
    &&& forall|i: int, j: int|
        0 <= i < j < stored.folder_access.len() ==> (#[trigger] stored.folder_access@[i]).folder_id@
            != (#[trigger] stored.folder_access@[j]).folder_id@
    &&& forall|i: int|
        0 <= i < stored.folder_access.len() ==> texts_distinct((#[trigger] stored.folder_access@[i]).user_ids@)
}

pub open spec fn is_member(brain: Brain, u: Seq<char>) -> bool {
    exists|i: int| 0 <= i < brain.members.len() && (#[trigger] brain.members[i]).user_id@ == u
}

pub open spec fn is_admin(brain: Brain, u: Seq<char>) -> bool {
    seq_has(brain.admins@, u)
}

pub open spec fn is_owner(brain: Brain, u: Seq<char>) -> bool {
    brain.owner_user_id matches Some(o) && o@ == u
}

pub open spec fn is_personal_agent(stored: StoredBrain, u: Seq<char>) -> bool {
    stored.personal_agent matches Some(a) && a.agent_npub@ == u
}

/// The user holds explicit access to the Folder.
pub open spec fn has_explicit_access(stored: StoredBrain, folder_id: Seq<char>, u: Seq<char>) -> bool {
    exists|i: int|
        0 <= i < stored.folder_access.len() && (#[trigger] stored.folder_access[i]).folder_id@
            == folder_id && seq_has(stored.folder_access[i].user_ids@, u)
}

/// The users holding explicit access to the Folder.
pub open spec fn explicit_access_set(stored: StoredBrain, folder_id: Seq<char>) -> Set<Seq<char>> {
    Set::new(|u: Seq<char>| has_explicit_access(stored, folder_id, u))
}

/// The user holds explicit access to some Folder.
pub open spec fn has_any_explicit_access(stored: StoredBrain, u: Seq<char>) -> bool {
    exists|i: int|
        0 <= i < stored.folder_access.len() && seq_has(
            (#[trigger] stored.folder_access[i]).user_ids@,
            u,
        )
}

/// The first Folder with the id, as `find` returns it.
pub open spec fn folder_with_id(folders: Seq<Folder>, id: Seq<char>) -> Option<Folder>
    decreases folders.len(),
{
    if folders.len() == 0 {
        None
    } else if folders[0].id@ == id {
        Some(folders[0])
    } else {
        folder_with_id(folders.drop_first(), id)
    }
}

pub proof fn lemma_folder_with_id_none(folders: Seq<Folder>, id: Seq<char>)
    ensures
        folder_with_id(folders, id) is None <==> forall|i: int|
            0 <= i < folders.len() ==> (#[trigger] folders[i]).id@ != id,
        folder_with_id(folders, id) matches Some(f) ==> f.id@ == id && folders.contains(f),
    decreases folders.len(),
{
    if folders.len() > 0 {
        lemma_folder_with_id_none(folders.drop_first(), id);
        if folders[0].id@ != id {
            assert forall|i: int| 1 <= i < folders.len() implies folders[i] == folders.drop_first()[i
                - 1] by {}
            if folder_with_id(folders, id) is None {
                assert forall|i: int| 0 <= i < folders.len() implies (#[trigger] folders[i]).id@
                    != id by {
                    if i > 0 {
                        assert(folders.drop_first()[i - 1] == folders[i]);
                    }
                }
            }
            if let Some(f) = folder_with_id(folders, id) {
                let k = choose|k: int| 0 <= k < folders.drop_first().len() && folders.drop_first()[k] == f;
                assert(folders[k + 1] == f);
            }
        }
    }
}

/// Exact copy of a list of texts.
pub fn copy_texts(v: &Vec<String>) -> (r: Vec<String>)
    ensures
        r@ == v@,
{
    let mut r: Vec<String> = Vec::new();
    let mut i: usize = 0;
    while i < v.len()
        invariant
            i <= v.len(),
            r@ == v@.subrange(0, i as int),
        decreases v.len() - i,
    {
        r.push(v[i].clone());
        i += 1;
        assert(r@ =~= v@.subrange(0, i as int));
    }
    assert(r@ =~= v@);
    r
}

/// Exact copy of an optional text.
pub fn copy_opt(o: &Option<String>) -> (r: Option<String>)
    ensures
        r == *o,
{
    match o {
        Some(s) => Some(s.clone()),
        None => None,
    }
}

/// Exact copy of a Folder.
pub fn copy_folder(f: &Folder) -> (r: Folder)
    ensures
        r == *f,
{
    Folder {
        id: f.id.clone(),
        name: f.name.clone(),
        role: f.role,
        access: f.access,
        parent_folder_id: copy_opt(&f.parent_folder_id),
        path: f.path.clone(),
        current_key_version: f.current_key_version,
    }
}

/// True when the list holds the text.
pub fn texts_contain(v: &Vec<String>, x: &str) -> (r: bool)
    ensures
        r == seq_has(v@, x@),
{
    let mut i: usize = 0;
    while i < v.len()
        invariant
            i <= v.len(),
            forall|j: int| 0 <= j < i ==> (#[trigger] v@[j])@ != x@,
        decreases v.len() - i,
    {
        if crate::text::str_eq(v[i].as_str(), x) {
            return true;
        }
        i += 1;
    }
    false
}

pub fn brain_is_member(brain: &Brain, u: &str) -> (r: bool)
    ensures
        r == is_member(*brain, u@),
{
    let mut i: usize = 0;
    while i < brain.members.len()
        invariant
            i <= brain.members.len(),
            forall|j: int| 0 <= j < i ==> (#[trigger] brain.members@[j]).user_id@ != u@,
        decreases brain.members.len() - i,
    {
        if crate::text::str_eq(brain.members[i].user_id.as_str(), u) {
            return true;
        }
        i += 1;
    }
    false
}

pub fn brain_is_admin(brain: &Brain, u: &str) -> (r: bool)
    ensures
        r == is_admin(*brain, u@),
{
    texts_contain(&brain.admins, u)
}

pub fn brain_is_owner(brain: &Brain, u: &str) -> (r: bool)
    ensures
        r == is_owner(*brain, u@),
{
    match &brain.owner_user_id {
        Some(o) => crate::text::str_eq(o.as_str(), u),
        None => false,
    }
}

pub fn stored_is_personal_agent(stored: &StoredBrain, u: &str) -> (r: bool)
    ensures
        r == is_personal_agent(*stored, u@),
{
    match &stored.personal_agent {
        Some(a) => crate::text::str_eq(a.agent_npub.as_str(), u),
        None => false,
    }
}

/// True when the user holds explicit access to the Folder.
pub fn stored_has_explicit_access(stored: &StoredBrain, folder_id: &str, u: &str) -> (r: bool)
    ensures
        r == has_explicit_access(*stored, folder_id@, u@),
{
    let mut i: usize = 0;
    while i < stored.folder_access.len()
        invariant
            i <= stored.folder_access.len(),
            forall|j: int|
                0 <= j < i ==> !((#[trigger] stored.folder_access@[j]).folder_id@ == folder_id@
                    && seq_has(stored.folder_access@[j].user_ids@, u@)),
        decreases stored.folder_access.len() - i,
    {
        let entry = &stored.folder_access[i];
        if crate::text::str_eq(entry.folder_id.as_str(), folder_id) && texts_contain(
            &entry.user_ids,
            u,
        ) {
            return true;
        }
        i += 1;
    }
    false
}

/// True when the user holds explicit access to some Folder.
pub fn stored_has_any_explicit_access(stored: &StoredBrain, u: &str) -> (r: bool)
    ensures
        r == has_any_explicit_access(*stored, u@),
{
    let mut i: usize = 0;
    while i < stored.folder_access.len()
        invariant
            i <= stored.folder_access.len(),
            forall|j: int|
                0 <= j < i ==> !seq_has((#[trigger] stored.folder_access@[j]).user_ids@, u@),
        decreases stored.folder_access.len() - i,
    {
        if texts_contain(&stored.folder_access[i].user_ids, u) {
            return true;
        }
        i += 1;
    }
    false
}

/// Index of the first Folder with the id, as `find` locates it.
pub fn find_folder(folders: &Vec<Folder>, id: &str) -> (r: Option<usize>)
    ensures
        match r {
            Some(i) => i < folders.len() && folder_with_id(folders@, id@) == Some(folders@[i as int]),
            None => folder_with_id(folders@, id@) is None,
        },
{
    let mut i: usize = 0;
    assert(folders@.skip(0) =~= folders@);
    while i < folders.len()
        invariant
            i <= folders.len(),
            folder_with_id(folders@, id@) == folder_with_id(folders@.skip(i as int), id@),
        decreases folders.len() - i,
    {
        assert(folders@.skip(i as int).drop_first() =~= folders@.skip(i + 1));
        if crate::text::str_eq(folders[i].id.as_str(), id) {
            return Some(i);
        }
        i += 1;
    }
    assert(folders@.skip(i as int).len() == 0);
    None
}

/// Exact copy of a grant.
pub fn copy_grant(g: &FolderKeyGrantMetadata) -> (r: FolderKeyGrantMetadata)
    ensures
        r == *g,
{
    FolderKeyGrantMetadata {
        id: g.id.clone(),
        folder_id: g.folder_id.clone(),
        key_version: g.key_version,
        issuer_npub: g.issuer_npub.clone(),
        recipient_npub: g.recipient_npub.clone(),
        format: g.format.clone(),
        wrapped_event_json: g.wrapped_event_json.clone(),
        access_change_event_json: copy_opt(&g.access_change_event_json),
        created_at: g.created_at.clone(),
    }
}

/// The texts of a list of strings.
pub open spec fn texts_view(v: Seq<String>) -> Seq<Seq<char>> {
    v.map_values(|s: String| s@)
}

/// Number of distinct elements of a sequence.
pub open spec fn distinct_count<A>(s: Seq<A>) -> nat
    decreases s.len(),
{
    if s.len() == 0 {
        0
    } else {
        distinct_count(s.drop_last()) + if s.drop_last().contains(s.last()) {
            0nat
        } else {
            1nat
        }
    }
}

/// Number of distinct texts in the list.
pub fn count_distinct_texts(v: &Vec<String>) -> (r: usize)
    ensures
        r == distinct_count(texts_view(v@)),
{
    let ghost s = texts_view(v@);
    let mut count: usize = 0;
    let mut i: usize = 0;
    while i < v.len()
        invariant
            i <= v.len(),
            s == texts_view(v@),
            count == distinct_count(s.take(i as int)),
            count <= i,
        decreases v.len() - i,
    {
        let mut seen = false;
        let mut j: usize = 0;
        while j < i
            invariant
                j <= i,
                i < v.len(),
                s == texts_view(v@),
                seen <==> exists|k: int| 0 <= k < j && #[trigger] s[k] == s[i as int],
            decreases i - j,
        {
            let same = crate::text::str_eq(v[j].as_str(), v[i].as_str());
            proof {
                assert(s[j as int] == v@[j as int]@);
                assert(s[i as int] == v@[i as int]@);
            }
            if same {
                seen = true;
            }
            j += 1;
        }
        proof {
            let t = s.take(i + 1);
            assert(t.drop_last() =~= s.take(i as int));
            assert(t.last() == s[i as int]);
            if seen {
                let k = choose|k: int| 0 <= k < i && #[trigger] s[k] == s[i as int];
                assert(s.take(i as int)[k] == s[k]);
            }
            if s.take(i as int).contains(s[i as int]) {
                let k = choose|k: int| 0 <= k < i && #[trigger] s.take(i as int)[k] == s[i as int];
                assert(s[k] == s.take(i as int)[k]);
            }
        }
        if !seen {
            count += 1;
        }
        i += 1;
    }
    proof {
        assert(s.take(v.len() as int) =~= s);
    }
    count
}

} // verus!
