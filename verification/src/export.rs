//! Actor-filtered Encrypted Brain Export, built without decrypting content.
use vstd::prelude::*;

use crate::access::{
    actor_is_guest, brain_visible, brain_visible_to_actor, folder_visible, folder_visible_to_actor,
    is_guest,
};
use crate::error::{broken, is_broken, StoreError};
use crate::kinds::{BrainKind, FolderAccessMode};
use crate::model::{
    brain_is_admin, brain_is_member, brain_is_owner, copy_opt, copy_texts, has_any_explicit_access,
    is_admin, is_member, is_owner, is_personal_agent, seq_has, stored_has_any_explicit_access,
    stored_is_personal_agent, texts_contain, Folder, FolderAccessEntry, FolderKeyGrantMetadata,
    StoredBrain,
};

verus! {

/// Current encrypted object projection.
#[derive(Debug, Clone, PartialEq, Eq)]
pub struct CurrentEncryptedObject {
    pub folder_id: String,
    pub object_id: String,
    pub payload_json: String,
    pub revision: u64,
    pub updated_at: String,
    pub deleted: bool,
}

/// Brain summary in Encrypted Brain Export.
#[derive(Debug, Clone, PartialEq, Eq)]
pub struct ExportBrainSummary {
    pub id: String,
    pub kind: BrainKind,
    pub name: String,
    pub owner_user_id: Option<String>,
}

/// Folder export entry.
#[derive(Debug, Clone, PartialEq, Eq)]
pub struct EncryptedExportFolder {
    pub id: String,
    pub path: String,
    pub access: FolderAccessMode,
    pub current_key_version: u32,
    /// Whether the actor can access current encrypted objects in this Folder.
    pub accessible: bool,
}

/// Object export entry. Inaccessible objects are opaque metadata only.
#[derive(Debug, Clone, PartialEq, Eq)]
pub struct EncryptedExportObject {
    pub folder_id: String,
    pub object_id: String,
    /// Current encrypted payload JSON when accessible.
    pub payload_json: Option<String>,
    pub revision: u64,
    pub updated_at: String,
    pub deleted: bool,
    /// True when payload is intentionally withheld.
    pub opaque: bool,
}

/// Explicit Folder access entry.
#[derive(Debug, Clone, PartialEq, Eq)]
pub struct EncryptedExportFolderAccess {
    pub folder_id: String,
    pub user_ids: Vec<String>,
}

/// Actor-visible export access state.
#[derive(Debug, Clone, PartialEq, Eq)]
pub struct EncryptedExportAccessState {
    pub members: Vec<String>,
    pub admins: Vec<String>,
    pub folders: Vec<EncryptedExportFolderAccess>,
}

/// Encrypted Brain Export with actor-filtered visibility.
#[derive(Debug, Clone, PartialEq, Eq)]
pub struct EncryptedBrainExport {
    pub version: String,
    pub brain: ExportBrainSummary,
    pub folders: Vec<EncryptedExportFolder>,
    pub objects: Vec<EncryptedExportObject>,
    pub key_grants: Vec<FolderKeyGrantMetadata>,
    pub access_state: EncryptedExportAccessState,
}

/// The export lists only what a limited guest can open; everyone else sees
/// every entry, opaque where inaccessible.
pub open spec fn export_lists(stored: StoredBrain, actor: Seq<char>, accessible: bool) -> bool {
    !is_guest(stored, actor) || accessible
}

/// Folder entries of the export, in Brain order.
pub open spec fn export_folders(stored: StoredBrain, actor: Seq<char>, fs: Seq<Folder>) -> Seq<
    EncryptedExportFolder,
>
    decreases fs.len(),
{
    if fs.len() == 0 {
        Seq::empty()
    } else {
        let prev = export_folders(stored, actor, fs.drop_last());
        let f = fs.last();
        let accessible = folder_visible(stored, f.id@, actor);
        if export_lists(stored, actor, accessible) {
            prev.push(
                EncryptedExportFolder {
                    id: f.id,
                    path: f.path,
                    access: f.access,
                    current_key_version: f.current_key_version,
                    accessible,
                },
            )
        } else {
            prev
        }
    }
}

/// Object entries of the export, in projection order.
pub open spec fn export_objects(
    stored: StoredBrain,
    actor: Seq<char>,
    os: Seq<CurrentEncryptedObject>,
) -> Seq<EncryptedExportObject>
    decreases os.len(),
{
    if os.len() == 0 {
        Seq::empty()
    } else {
        let prev = export_objects(stored, actor, os.drop_last());
        let o = os.last();
        let accessible = folder_visible(stored, o.folder_id@, actor);
        if export_lists(stored, actor, accessible) {
            prev.push(
                EncryptedExportObject {
                    folder_id: o.folder_id,
                    object_id: o.object_id,
                    payload_json: if accessible {
                        Some(o.payload_json)
                    } else {
                        None
                    },
                    revision: o.revision,
                    updated_at: o.updated_at,
                    deleted: o.deleted,
                    opaque: !accessible,
                },
            )
        } else {
            prev
        }
    }
}

/// Grants an admin sees all of; anyone else only their own.
pub open spec fn export_grants(
    gs: Seq<FolderKeyGrantMetadata>,
    actor: Seq<char>,
    admin: bool,
) -> Seq<FolderKeyGrantMetadata>
    decreases gs.len(),
{
    if gs.len() == 0 {
        Seq::empty()
    } else {
        let prev = export_grants(gs.drop_last(), actor, admin);
        if admin || gs.last().recipient_npub@ == actor {
            prev.push(gs.last())
        } else {
            prev
        }
    }
}

/// Members a non-admin sees: only entries naming the actor.
pub open spec fn own_member_ids(ms: Seq<crate::model::BrainMember>, actor: Seq<char>) -> Seq<
    Seq<char>,
>
    decreases ms.len(),
{
    if ms.len() == 0 {
        Seq::empty()
    } else {
        let prev = own_member_ids(ms.drop_last(), actor);
        if ms.last().user_id@ == actor {
            prev.push(actor)
        } else {
            prev
        }
    }
}

/// Explicit Folder access a non-admin sees: the Folders granted to the actor,
/// each naming only the actor.
pub open spec fn own_folder_access(es: Seq<FolderAccessEntry>, actor: Seq<char>) -> Seq<
    (Seq<char>, Seq<Seq<char>>),
>
    decreases es.len(),
{
    if es.len() == 0 {
        Seq::empty()
    } else {
        let prev = own_folder_access(es.drop_last(), actor);
        if seq_has(es.last().user_ids@, actor) {
            prev.push((es.last().folder_id@, seq![actor]))
        } else {
            prev
        }
    }
}

/// Plain view of an export access entry.
pub open spec fn access_entry_view(e: EncryptedExportFolderAccess) -> (Seq<char>, Seq<Seq<char>>) {
    (e.folder_id@, e.user_ids@.map_values(|u: String| u@))
}

/// The actor-visible access state: everything for an admin, only the actor's
/// own rows otherwise.
pub open spec fn access_state_matches(
    state: EncryptedExportAccessState,
    stored: StoredBrain,
    actor: Seq<char>,
    admin: bool,
) -> bool {
    if admin {
        &&& state.members@.map_values(|u: String| u@) == stored.brain.members@.map_values(
            |m: crate::model::BrainMember| m.user_id@,
        )
        &&& state.admins@ == stored.brain.admins@
        &&& state.folders@.map_values(|e: EncryptedExportFolderAccess| access_entry_view(e))
            == stored.folder_access@.map_values(
            |e: FolderAccessEntry| (e.folder_id@, e.user_ids@.map_values(|u: String| u@)),
        )
    } else {
        &&& state.members@.map_values(|u: String| u@) == own_member_ids(
            stored.brain.members@,
            actor,
        )
        &&& state.admins@.len() == 0
        &&& state.folders@.map_values(|e: EncryptedExportFolderAccess| access_entry_view(e))
            == own_folder_access(stored.folder_access@, actor)
    }
}

/// The actor may take an export: Brain-visible, a Personal Agent or a Guest,
/// and, on a Personal Brain, holding some scope in it.
pub open spec fn may_export(stored: StoredBrain, actor: Seq<char>) -> bool {
    let personal_scope = stored.brain.kind != BrainKind::Personal || is_owner(stored.brain, actor)
        || is_personal_agent(stored, actor) || is_member(stored.brain, actor)
        || has_any_explicit_access(stored, actor);
    (brain_visible(stored.brain, actor) || is_personal_agent(stored, actor) || is_guest(
        stored,
        actor,
    )) && personal_scope
}

fn export_folder_entries(stored: &StoredBrain, actor: &str) -> (r: Vec<EncryptedExportFolder>)
    ensures
        r@ == export_folders(*stored, actor@, stored.brain.folders@),
{
    let fs = &stored.brain.folders;
    let guest = actor_is_guest(stored, actor);
    let mut r: Vec<EncryptedExportFolder> = Vec::new();
    let mut i: usize = 0;
    while i < fs.len()
        invariant
            i <= fs.len(),
            fs == stored.brain.folders,
            guest == is_guest(*stored, actor@),
            r@ == export_folders(*stored, actor@, fs@.take(i as int)),
        decreases fs.len() - i,
    {
        assert(fs@.take(i + 1).drop_last() =~= fs@.take(i as int));
        let f = &fs[i];
        let accessible = folder_visible_to_actor(stored, f.id.as_str(), actor);
        if !guest || accessible {
            r.push(
                EncryptedExportFolder {
                    id: f.id.clone(),
                    path: f.path.clone(),
                    access: f.access,
                    current_key_version: f.current_key_version,
                    accessible,
                },
            );
        }
        i += 1;
    }
    assert(fs@.take(i as int) =~= fs@);
    r
}

fn export_object_entries(
    stored: &StoredBrain,
    objects: Vec<CurrentEncryptedObject>,
    actor: &str,
) -> (r: Vec<EncryptedExportObject>)
    ensures
        r@ == export_objects(*stored, actor@, objects@),
{
    let guest = actor_is_guest(stored, actor);
    let mut r: Vec<EncryptedExportObject> = Vec::new();
    let mut i: usize = 0;
    while i < objects.len()
        invariant
            i <= objects.len(),
            guest == is_guest(*stored, actor@),
            r@ == export_objects(*stored, actor@, objects@.take(i as int)),
        decreases objects.len() - i,
    {
        assert(objects@.take(i + 1).drop_last() =~= objects@.take(i as int));
        let o = &objects[i];
        let accessible = folder_visible_to_actor(stored, o.folder_id.as_str(), actor);
        if !guest || accessible {
            r.push(
                EncryptedExportObject {
                    folder_id: o.folder_id.clone(),
                    object_id: o.object_id.clone(),
                    payload_json: if accessible {
                        Some(o.payload_json.clone())
                    } else {
                        None
                    },
                    revision: o.revision,
                    updated_at: o.updated_at.clone(),
                    deleted: o.deleted,
                    opaque: !accessible,
                },
            );
        }
        i += 1;
    }
    assert(objects@.take(i as int) =~= objects@);
    r
}

fn export_grant_entries(grants: &Vec<FolderKeyGrantMetadata>, actor: &str, admin: bool) -> (r: Vec<
    FolderKeyGrantMetadata,
>)
    ensures
        r@ == export_grants(grants@, actor@, admin),
{
    let mut r: Vec<FolderKeyGrantMetadata> = Vec::new();
    let mut i: usize = 0;
    while i < grants.len()
        invariant
            i <= grants.len(),
            r@ == export_grants(grants@.take(i as int), actor@, admin),
        decreases grants.len() - i,
    {
        assert(grants@.take(i + 1).drop_last() =~= grants@.take(i as int));
        if admin || crate::text::str_eq(grants[i].recipient_npub.as_str(), actor) {
            r.push(crate::model::copy_grant(&grants[i]));
        }
        i += 1;
    }
    assert(grants@.take(i as int) =~= grants@);
    r
}

/// Visible access state of the export: everything for an admin, only the
/// actor's own rows otherwise.
pub fn export_access_state(stored: &StoredBrain, actor: &str, admin: bool) -> (r:
    EncryptedExportAccessState)
    ensures
        access_state_matches(r, *stored, actor@, admin),
{
    let ms = &stored.brain.members;
    let es = &stored.folder_access;
    let mut members: Vec<String> = Vec::new();
    let mut folders: Vec<EncryptedExportFolderAccess> = Vec::new();
    if admin {
        let mut i: usize = 0;
        while i < ms.len()
            invariant
                i <= ms.len(),
                members@.map_values(|u: String| u@) == ms@.take(i as int).map_values(
                    |m: crate::model::BrainMember| m.user_id@,
                ),
            decreases ms.len() - i,
        {
            let ghost before = members@;
            members.push(ms[i].user_id.clone());
            assert(members@.map_values(|u: String| u@) =~= before.map_values(|u: String| u@).push(
                ms@[i as int].user_id@,
            ));
            assert(ms@.take(i + 1).map_values(|m: crate::model::BrainMember| m.user_id@)
                =~= ms@.take(i as int).map_values(|m: crate::model::BrainMember| m.user_id@).push(
                ms@[i as int].user_id@,
            ));
            i += 1;
        }
        assert(ms@.take(i as int) =~= ms@);
        let mut k: usize = 0;
        while k < es.len()
            invariant
                k <= es.len(),
                folders@.map_values(|e: EncryptedExportFolderAccess| access_entry_view(e))
                    == es@.take(k as int).map_values(
                    |e: FolderAccessEntry| (e.folder_id@, e.user_ids@.map_values(|u: String| u@)),
                ),
            decreases es.len() - k,
        {
            let users = copy_texts(&es[k].user_ids);
            let ghost before = folders@;
            let ghost item = (es@[k as int].folder_id@, es@[k as int].user_ids@.map_values(
                |u: String| u@,
            ));
            folders.push(
                EncryptedExportFolderAccess { folder_id: es[k].folder_id.clone(), user_ids: users },
            );
            assert(folders@.map_values(|e: EncryptedExportFolderAccess| access_entry_view(e))
                =~= before.map_values(|e: EncryptedExportFolderAccess| access_entry_view(e)).push(
                item,
            ));
            assert(es@.take(k + 1).map_values(
                |e: FolderAccessEntry| (e.folder_id@, e.user_ids@.map_values(|u: String| u@)),
            ) =~= es@.take(k as int).map_values(
                |e: FolderAccessEntry| (e.folder_id@, e.user_ids@.map_values(|u: String| u@)),
            ).push(item));
            k += 1;
        }
        assert(es@.take(k as int) =~= es@);
        return EncryptedExportAccessState {
            members,
            admins: copy_texts(&stored.brain.admins),
            folders,
        };
    }
    let mut i: usize = 0;
    while i < ms.len()
        invariant
            i <= ms.len(),
            members@.map_values(|u: String| u@) == own_member_ids(ms@.take(i as int), actor@),
        decreases ms.len() - i,
    {
        assert(ms@.take(i + 1).drop_last() =~= ms@.take(i as int));
        let ghost before = members@;
        if crate::text::str_eq(ms[i].user_id.as_str(), actor) {
            members.push(ms[i].user_id.clone());
            assert(members@.map_values(|u: String| u@) =~= before.map_values(|u: String| u@).push(
                actor@,
            ));
        }
        i += 1;
    }
    assert(ms@.take(i as int) =~= ms@);
    let mut k: usize = 0;
    while k < es.len()
        invariant
            k <= es.len(),
            folders@.map_values(|e: EncryptedExportFolderAccess| access_entry_view(e))
                == own_folder_access(es@.take(k as int), actor@),
        decreases es.len() - k,
    {
        assert(es@.take(k + 1).drop_last() =~= es@.take(k as int));
        let ghost before = folders@;
        if texts_contain(&es[k].user_ids, actor) {
            let mut only: Vec<String> = Vec::new();
            only.push(actor.to_owned());
            folders.push(
                EncryptedExportFolderAccess { folder_id: es[k].folder_id.clone(), user_ids: only },
            );
            assert(only@.map_values(|u: String| u@) =~= seq![actor@]);
            assert(folders@.map_values(|e: EncryptedExportFolderAccess| access_entry_view(e))
                =~= before.map_values(|e: EncryptedExportFolderAccess| access_entry_view(e)).push(
                (es@[k as int].folder_id@, seq![actor@]),
            ));
        }
        k += 1;
    }
    assert(es@.take(k as int) =~= es@);
    EncryptedExportAccessState { members, admins: Vec::new(), folders }
}

/// Build an actor-filtered Encrypted Brain Export from the loaded Brain and
/// its current encrypted object projection, without decrypting content.
pub fn encrypted_brain_export(
    stored: &StoredBrain,
    objects: Vec<CurrentEncryptedObject>,
    actor: &str,
) -> (r: Result<EncryptedBrainExport, StoreError>)
    ensures
        match r {
            Err(e) => !may_export(*stored, actor@) && is_broken(
                e,
                "brain access required for encrypted export"@,
            ),
            Ok(x) => {
                let admin = is_admin(stored.brain, actor@);
                &&& may_export(*stored, actor@)
                &&& x.version@ == "finite-brain-export-v1"@
                &&& x.brain == ExportBrainSummary {
                    id: stored.brain.id,
                    kind: stored.brain.kind,
                    name: stored.brain.name,
                    owner_user_id: stored.brain.owner_user_id,
                }
                &&& x.folders@ == export_folders(*stored, actor@, stored.brain.folders@)
                &&& x.objects@ == export_objects(*stored, actor@, objects@)
                &&& x.key_grants@ == export_grants(stored.grants@, actor@, admin)
                &&& access_state_matches(x.access_state, *stored, actor@, admin)
            },
        },
{
    let is_personal_agent = stored_is_personal_agent(stored, actor);
    let is_member = brain_is_member(&stored.brain, actor);
    let has_personal_folder_scope = stored.brain.kind != BrainKind::Personal || brain_is_owner(
        &stored.brain,
        actor,
    ) || is_personal_agent || is_member || stored_has_any_explicit_access(stored, actor);
    let is_guest = actor_is_guest(stored, actor);
    if (!brain_visible_to_actor(&stored.brain, actor) && !is_personal_agent && !is_guest)
        || !has_personal_folder_scope {
        return Err(broken("brain access required for encrypted export"));
    }
    let is_admin = brain_is_admin(&stored.brain, actor);
    let folders = export_folder_entries(stored, actor);
    let objects = export_object_entries(stored, objects, actor);
    let key_grants = export_grant_entries(&stored.grants, actor, is_admin);
    let access_state = export_access_state(stored, actor, is_admin);
    Ok(
        EncryptedBrainExport {
            version: "finite-brain-export-v1".to_owned(),
            brain: ExportBrainSummary {
                id: stored.brain.id.clone(),
                kind: stored.brain.kind,
                name: stored.brain.name.clone(),
                owner_user_id: copy_opt(&stored.brain.owner_user_id),
            },
            folders,
            objects,
            key_grants,
            access_state,
        },
    )
}

} // verus!
