//! Permanent deletion of a Folder subtree: the depth-first walk below the
//! root Folder with its depth, cycle and size limits, the deletion order,
//! the objects and readers affected, and the work accounting.
use vstd::prelude::*;

use crate::access::{has_brain_operational_authority, has_operational_authority};
use crate::error::{broken, is_broken, is_capacity, is_missing_folder, StoreError};
use crate::export::CurrentEncryptedObject;
use crate::folder_ops::copy_object;
use crate::kinds::{BrainKind, FolderAccessMode};
use crate::membership::is_conflict;
use crate::model::{
    copy_folder, find_folder, folder_with_id, has_explicit_access, is_admin, is_member, is_owner,
    is_personal_agent, seq_has, texts_contain, texts_distinct, Folder, StoredBrain,
};
use crate::text::str_eq;

verus! {

/// The Folder names `parent` as its parent.
pub open spec fn is_child_of(f: Folder, parent: Seq<char>) -> bool {
    match f.parent_folder_id {
        Some(p) => p@ == parent,
        None => false,
    }
}

/// Ids of the Folders whose parent is `parent`, in Brain order.
pub open spec fn child_ids(fs: Seq<Folder>, parent: Seq<char>) -> Seq<Seq<char>>
    decreases fs.len(),
{
    if fs.len() == 0 {
        Seq::empty()
    } else {
        let prev = child_ids(fs.drop_last(), parent);
        if is_child_of(fs.last(), parent) {
            prev.push(fs.last().id@)
        } else {
            prev
        }
    }
}

/// Depth-first pre-order walk from `id` at `depth`: each Folder with its
/// depth, followed by the walks of its children in Brain order. Folders
/// deeper than `max_depth` are listed but not descended into.
pub open spec fn walk(fs: Seq<Folder>, id: Seq<char>, depth: int, max_depth: int) -> Seq<
    (Seq<char>, int),
>
    decreases max_depth + 1 - depth, 0int,
{
    if depth > max_depth {
        seq![(id, depth)]
    } else {
        seq![(id, depth)] + walks(fs, child_ids(fs, id), depth + 1, max_depth)
    }
}

/// The walks of several sibling Folders, one after the other.
pub open spec fn walks(fs: Seq<Folder>, kids: Seq<Seq<char>>, depth: int, max_depth: int) -> Seq<
    (Seq<char>, int),
>
    decreases max_depth + 1 - depth, kids.len(),
{
    if kids.len() == 0 {
        Seq::empty()
    } else {
        walks(fs, kids.drop_last(), depth, max_depth) + walk(fs, kids.last(), depth, max_depth)
    }
}

/// The i-th visited Folder is within the depth limit, was not visited
/// before, and keeps the visited count within the Folder limit.
pub open spec fn entry_ok(p: Seq<(Seq<char>, int)>, i: int, max_depth: int, max_folders: int) -> bool {
    &&& p[i].1 <= max_depth
    &&& forall|j: int| 0 <= j < i ==> (#[trigger] p[j]).0 != p[i].0
    &&& i + 1 <= max_folders
}

/// The error reported at the i-th visited Folder: depth first, then a
/// repeated visit, then the Folder count.
pub open spec fn entry_error(
    e: StoreError,
    p: Seq<(Seq<char>, int)>,
    i: int,
    max_depth: int,
    max_folders: int,
) -> bool {
    if p[i].1 > max_depth {
        is_capacity(e, "folder_depth"@, max_depth, p[i].1)
    } else if exists|j: int| 0 <= j < i && (#[trigger] p[j]).0 == p[i].0 {
        is_broken(e, "Folder hierarchy contains a cycle"@)
    } else {
        is_capacity(e, "brain_folders"@, max_folders, i + 1)
    }
}

/// Every visited Folder is within the limits.
pub open spec fn walk_ok(p: Seq<(Seq<char>, int)>, max_depth: int, max_folders: int) -> bool {
    forall|i: int| 0 <= i < p.len() ==> #[trigger] entry_ok(p, i, max_depth, max_folders)
}

/// The walk stops at its first Folder outside the limits with that
/// Folder's error.
pub open spec fn walk_fails_with(
    e: StoreError,
    p: Seq<(Seq<char>, int)>,
    max_depth: int,
    max_folders: int,
) -> bool {
    exists|i: int|
        0 <= i < p.len() && !#[trigger] entry_ok(p, i, max_depth, max_folders) && (forall|k: int|
            0 <= k < i ==> #[trigger] entry_ok(p, k, max_depth, max_folders)) && entry_error(
            e,
            p,
            i,
            max_depth,
            max_folders,
        )
}

/// Visited entries as ids and depths.
pub open spec fn entries_view(acc: Seq<(String, usize)>) -> Seq<(Seq<char>, int)> {
    acc.map_values(|e: (String, usize)| (e.0@, e.1 as int))
}

/// Limits and errors at an index agree between a walk and any extension.
pub proof fn lemma_entry_prefix(
    a: Seq<(Seq<char>, int)>,
    b: Seq<(Seq<char>, int)>,
    i: int,
    max_depth: int,
    max_folders: int,
    e: StoreError,
)
    requires
        a.len() <= b.len(),
        forall|j: int| 0 <= j < a.len() ==> a[j] == b[j],
        0 <= i < a.len(),
    ensures
        entry_ok(a, i, max_depth, max_folders) == entry_ok(b, i, max_depth, max_folders),
        entry_error(e, a, i, max_depth, max_folders) == entry_error(e, b, i, max_depth, max_folders),
{
    assert(a[i] == b[i]);
    assert((exists|j: int| 0 <= j < i && (#[trigger] a[j]).0 == a[i].0) == (exists|j: int|
        0 <= j < i && (#[trigger] b[j]).0 == b[i].0)) by {
        if exists|j: int| 0 <= j < i && (#[trigger] a[j]).0 == a[i].0 {
            let j = choose|j: int| 0 <= j < i && (#[trigger] a[j]).0 == a[i].0;
            assert(b[j] == a[j]);
        }
        if exists|j: int| 0 <= j < i && (#[trigger] b[j]).0 == b[i].0 {
            let j = choose|j: int| 0 <= j < i && (#[trigger] b[j]).0 == b[i].0;
            assert(b[j] == a[j]);
        }
    }
    assert((forall|j: int| 0 <= j < i ==> (#[trigger] a[j]).0 != a[i].0) == (forall|j: int|
        0 <= j < i ==> (#[trigger] b[j]).0 != b[i].0)) by {
        if forall|j: int| 0 <= j < i ==> (#[trigger] a[j]).0 != a[i].0 {
            assert forall|j: int| 0 <= j < i implies (#[trigger] b[j]).0 != b[i].0 by {
                assert(b[j] == a[j]);
            }
        }
        if forall|j: int| 0 <= j < i ==> (#[trigger] b[j]).0 != b[i].0 {
            assert forall|j: int| 0 <= j < i implies (#[trigger] a[j]).0 != a[i].0 by {
                assert(b[j] == a[j]);
            }
        }
    }
}

/// A failure found in a walk stays the failure of any extension of it.
pub proof fn lemma_fails_prefix(
    a: Seq<(Seq<char>, int)>,
    b: Seq<(Seq<char>, int)>,
    max_depth: int,
    max_folders: int,
    e: StoreError,
)
    requires
        a.len() <= b.len(),
        forall|j: int| 0 <= j < a.len() ==> a[j] == b[j],
        walk_fails_with(e, a, max_depth, max_folders),
    ensures
        walk_fails_with(e, b, max_depth, max_folders),
{
    let i = choose|i: int|
        0 <= i < a.len() && !#[trigger] entry_ok(a, i, max_depth, max_folders) && (forall|k: int|
            0 <= k < i ==> #[trigger] entry_ok(a, k, max_depth, max_folders)) && entry_error(
            e,
            a,
            i,
            max_depth,
            max_folders,
        );
    lemma_entry_prefix(a, b, i, max_depth, max_folders, e);
    assert forall|k: int| 0 <= k < i implies #[trigger] entry_ok(b, k, max_depth, max_folders) by {
        lemma_entry_prefix(a, b, k, max_depth, max_folders, e);
    }
}

/// The walks of the first `m` siblings begin the walks of all of them.
pub proof fn lemma_walks_take_prefix(fs: Seq<Folder>, kids: Seq<Seq<char>>, m: int, depth: int, max_depth: int)
    requires
        0 <= m <= kids.len(),
    ensures
        walks(fs, kids.take(m), depth, max_depth).len() <= walks(fs, kids, depth, max_depth).len(),
        forall|j: int|
            0 <= j < walks(fs, kids.take(m), depth, max_depth).len() ==> #[trigger] walks(
                fs,
                kids.take(m),
                depth,
                max_depth,
            )[j] == walks(fs, kids, depth, max_depth)[j],
    decreases kids.len(),
{
    if m == kids.len() {
        assert(kids.take(m) =~= kids);
    } else {
        let d = kids.drop_last();
        assert(kids.take(m) =~= d.take(m));
        lemma_walks_take_prefix(fs, d, m, depth, max_depth);
    }
}

/// Ids of the child Folders of `parent`, in Brain order.
fn child_ids_of(folders: &Vec<Folder>, parent: &str) -> (r: Vec<String>)
    ensures
        r@.map_values(|s: String| s@) == child_ids(folders@, parent@),
{
    let mut r: Vec<String> = Vec::new();
    let mut i: usize = 0;
    while i < folders.len()
        invariant
            i <= folders.len(),
            r.len() == child_ids(folders@.take(i as int), parent@).len(),
            forall|k: int|
                0 <= k < r.len() ==> (#[trigger] r@[k])@ == child_ids(folders@.take(i as int), parent@)[k],
        decreases folders.len() - i,
    {
        assert(folders@.take(i + 1).drop_last() =~= folders@.take(i as int));
        let f = &folders[i];
        let is_child = match &f.parent_folder_id {
            Some(p) => str_eq(p.as_str(), parent),
            None => false,
        };
        if is_child {
            r.push(f.id.clone());
        }
        i += 1;
    }
    assert(folders@.take(i as int) =~= folders@);
    assert(r@.map_values(|s: String| s@) =~= child_ids(folders@, parent@));
    r
}

/// True when some visited entry has the id.
fn visited(acc: &Vec<(String, usize)>, id: &str) -> (r: bool)
    ensures
        r == exists|j: int| 0 <= j < acc.len() && (#[trigger] entries_view(acc@)[j]).0 == id@,
{
    let mut j: usize = 0;
    while j < acc.len()
        invariant
            j <= acc.len(),
            forall|k: int| 0 <= k < j ==> (#[trigger] entries_view(acc@)[k]).0 != id@,
        decreases acc.len() - j,
    {
        if str_eq(acc[j].0.as_str(), id) {
            assert(entries_view(acc@)[j as int].0 == id@);
            return true;
        }
        j += 1;
    }
    false
}

/// Walk the subtree below `id`, appending each visited Folder and its depth,
/// and stop at the first Folder outside the limits.
fn visit(
    folders: &Vec<Folder>,
    id: &str,
    depth: usize,
    max_depth: usize,
    max_folders: usize,
    acc: &mut Vec<(String, usize)>,
) -> (r: Result<(), StoreError>)
    requires
        1 <= depth <= max_depth + 1,
        max_depth < usize::MAX,
        walk_ok(entries_view(old(acc)@), max_depth as int, max_folders as int),
    ensures
        match r {
            Ok(()) => {
                &&& entries_view(final(acc)@) == entries_view(old(acc)@) + walk(
                    folders@,
                    id@,
                    depth as int,
                    max_depth as int,
                )
                &&& walk_ok(entries_view(final(acc)@), max_depth as int, max_folders as int)
            },
            Err(e) => walk_fails_with(
                e,
                entries_view(old(acc)@) + walk(folders@, id@, depth as int, max_depth as int),
                max_depth as int,
                max_folders as int,
            ),
        },
    decreases max_depth + 1 - depth,
{
    let ghost old_view = entries_view(acc@);
    let ghost full = old_view + walk(folders@, id@, depth as int, max_depth as int);
    let ghost i0 = old_view.len() as int;
    proof {
        assert(full[i0] == (id@, depth as int));
        assert forall|k: int| 0 <= k < i0 implies #[trigger] entry_ok(full, k, max_depth as int, max_folders as int) by {
            assert(entry_ok(old_view, k, max_depth as int, max_folders as int));
            lemma_entry_prefix(old_view, full, k, max_depth as int, max_folders as int, arbitrary());
        }
    }
    if depth > max_depth {
        let e = StoreError::CapacityExceeded { limit: "folder_depth".to_owned(), max: max_depth, current: depth };
        proof {
            reveal_strlit("folder_depth");
            assert(!entry_ok(full, i0, max_depth as int, max_folders as int));
            assert(entry_error(e, full, i0, max_depth as int, max_folders as int));
        }
        return Err(e);
    }
    if visited(acc, id) {
        let e = broken("Folder hierarchy contains a cycle");
        proof {
            let j = choose|j: int| 0 <= j < acc.len() && (#[trigger] entries_view(acc@)[j]).0 == id@;
            assert(full[j] == old_view[j]);
            assert(!entry_ok(full, i0, max_depth as int, max_folders as int));
            assert(entry_error(e, full, i0, max_depth as int, max_folders as int));
        }
        return Err(e);
    }
    acc.push((id.to_owned(), depth));
    proof {
        assert(entries_view(acc@) =~= old_view.push((id@, depth as int)));
        assert forall|j: int| 0 <= j < i0 implies (#[trigger] full[j]).0 != full[i0].0 by {
            assert(full[j] == old_view[j]);
            assert(entries_view(acc@)[j] == old_view[j]);
        }
    }
    if acc.len() > max_folders {
        let e = StoreError::CapacityExceeded { limit: "brain_folders".to_owned(), max: max_folders, current: acc.len() };
        proof {
            reveal_strlit("brain_folders");
            assert(!entry_ok(full, i0, max_depth as int, max_folders as int));
            assert(!exists|j: int| 0 <= j < i0 && (#[trigger] full[j]).0 == full[i0].0);
            assert(entry_error(e, full, i0, max_depth as int, max_folders as int));
        }
        return Err(e);
    }
    let kids = child_ids_of(folders, id);
    let ghost kv = kids@.map_values(|s: String| s@);
    let ghost head = old_view.push((id@, depth as int));
    proof {
        assert(entry_ok(full, i0, max_depth as int, max_folders as int));
        assert forall|k: int| 0 <= k < head.len() implies #[trigger] entry_ok(head, k, max_depth as int, max_folders as int) by {
            assert forall|j: int| 0 <= j < head.len() implies head[j] == full[j] by {}
            lemma_entry_prefix(head, full, k, max_depth as int, max_folders as int, arbitrary());
        }
        assert(full =~= head + walks(folders@, kv, depth + 1, max_depth as int));
    }
    let mut k: usize = 0;
    while k < kids.len()
        invariant
            k <= kids.len(),
            kv == kids@.map_values(|s: String| s@),
            kv == child_ids(folders@, id@),
            1 <= depth <= max_depth,
            max_depth < usize::MAX,
            full == head + walks(folders@, kv, depth + 1, max_depth as int),
            full == entries_view(old(acc)@) + walk(folders@, id@, depth as int, max_depth as int),
            entries_view(acc@) == head + walks(folders@, kv.take(k as int), depth + 1, max_depth as int),
            walk_ok(entries_view(acc@), max_depth as int, max_folders as int),
        decreases kids.len() - k,
    {
        let ghost before = entries_view(acc@);
        let res = visit(folders, kids[k].as_str(), depth + 1, max_depth, max_folders, acc);
        proof {
            assert(kids@[k as int]@ == kv[k as int]);
            assert(kv.take(k + 1).drop_last() =~= kv.take(k as int));
            assert(walks(folders@, kv.take(k + 1), depth + 1, max_depth as int) == walks(
                folders@,
                kv.take(k as int),
                depth + 1,
                max_depth as int,
            ) + walk(folders@, kv[k as int], depth + 1, max_depth as int));
            let step = before + walk(folders@, kv[k as int], depth + 1, max_depth as int);
            assert(step =~= head + walks(folders@, kv.take(k + 1), depth + 1, max_depth as int));
            lemma_walks_take_prefix(folders@, kv, k + 1, depth + 1, max_depth as int);
            assert forall|j: int| 0 <= j < step.len() implies step[j] == full[j] by {
                if j >= head.len() {
                    assert(step[j] == walks(folders@, kv.take(k + 1), depth + 1, max_depth as int)[j - head.len()]);
                }
            }
            if res is Err {
                lemma_fails_prefix(step, full, max_depth as int, max_folders as int, res->Err_0);
            }
        }
        if let Err(e) = res {
            return Err(e);
        }
        k += 1;
    }
    proof {
        assert(kv.take(k as int) =~= kv);
    }
    Ok(())
}

/// The walk of the subtree below the root Folder, stopping at the first
/// Folder outside the depth or size limit or visited twice.
pub fn subtree_walk(folders: &Vec<Folder>, root_folder_id: &str, max_depth: usize, max_folders: usize) -> (r:
    Result<Vec<(String, usize)>, StoreError>)
    requires
        max_depth < usize::MAX,
    ensures
        match r {
            Ok(v) => {
                &&& entries_view(v@) == walk(folders@, root_folder_id@, 1, max_depth as int)
                &&& walk_ok(entries_view(v@), max_depth as int, max_folders as int)
            },
            Err(e) => walk_fails_with(
                e,
                walk(folders@, root_folder_id@, 1, max_depth as int),
                max_depth as int,
                max_folders as int,
            ),
        },
{
    let mut acc: Vec<(String, usize)> = Vec::new();
    proof {
        assert(entries_view(acc@) =~= Seq::<(Seq<char>, int)>::empty());
    }
    let res = visit(folders, root_folder_id, 1, max_depth, max_folders, &mut acc);
    proof {
        assert(Seq::<(Seq<char>, int)>::empty() + walk(folders@, root_folder_id@, 1, max_depth as int) =~= walk(
            folders@,
            root_folder_id@,
            1,
            max_depth as int,
        ));
    }
    match res {
        Ok(()) => Ok(acc),
        Err(e) => Err(e),
    }
}

/// The walk visited the Folder id.
pub open spec fn walked(p: Seq<(Seq<char>, int)>, id: Seq<char>) -> bool {
    exists|i: int| 0 <= i < p.len() && (#[trigger] p[i]).0 == id
}

/// The walk visited the Folder id at the depth.
pub open spec fn walked_at(p: Seq<(Seq<char>, int)>, id: Seq<char>, d: int) -> bool {
    exists|i: int| 0 <= i < p.len() && #[trigger] p[i] == (id, d)
}

/// The Brain's Folders the walk visited at the depth, in Brain order.
pub open spec fn folders_at_depth(fs: Seq<Folder>, p: Seq<(Seq<char>, int)>, d: int) -> Seq<Folder>
    decreases fs.len(),
{
    if fs.len() == 0 {
        Seq::empty()
    } else {
        let prev = folders_at_depth(fs.drop_last(), p, d);
        if walked_at(p, fs.last().id@, d) {
            prev.push(fs.last())
        } else {
            prev
        }
    }
}

/// Deletion order of the visited Folders: deepest first, Brain order
/// within one depth.
pub open spec fn deletion_order(fs: Seq<Folder>, p: Seq<(Seq<char>, int)>, d: int) -> Seq<Folder>
    decreases d,
{
    if d <= 0 {
        Seq::empty()
    } else {
        folders_at_depth(fs, p, d) + deletion_order(fs, p, d - 1)
    }
}

/// Current objects, live or tombstoned, of the visited Folders.
pub open spec fn subtree_objects(os: Seq<CurrentEncryptedObject>, p: Seq<(Seq<char>, int)>) -> Seq<
    CurrentEncryptedObject,
>
    decreases os.len(),
{
    if os.len() == 0 {
        Seq::empty()
    } else {
        let prev = subtree_objects(os.drop_last(), p);
        if walked(p, os.last().folder_id@) {
            prev.push(os.last())
        } else {
            prev
        }
    }
}

/// Number of live (not deleted) objects.
pub open spec fn live_count(os: Seq<CurrentEncryptedObject>) -> nat
    decreases os.len(),
{
    if os.len() == 0 {
        0
    } else {
        live_count(os.drop_last()) + if os.last().deleted {
            0nat
        } else {
            1nat
        }
    }
}

fn walked_at_depth(acc: &Vec<(String, usize)>, id: &str, d: usize) -> (r: bool)
    ensures
        r == walked_at(entries_view(acc@), id@, d as int),
{
    let ghost p = entries_view(acc@);
    let mut j: usize = 0;
    while j < acc.len()
        invariant
            j <= acc.len(),
            p == entries_view(acc@),
            forall|k: int| 0 <= k < j ==> #[trigger] p[k] != (id@, d as int),
        decreases acc.len() - j,
    {
        if acc[j].1 == d && str_eq(acc[j].0.as_str(), id) {
            assert(p[j as int] == (id@, d as int));
            return true;
        }
        j += 1;
    }
    false
}

fn walked_id(acc: &Vec<(String, usize)>, id: &str) -> (r: bool)
    ensures
        r == walked(entries_view(acc@), id@),
{
    let ghost p = entries_view(acc@);
    let mut j: usize = 0;
    while j < acc.len()
        invariant
            j <= acc.len(),
            p == entries_view(acc@),
            forall|k: int| 0 <= k < j ==> (#[trigger] p[k]).0 != id@,
        decreases acc.len() - j,
    {
        if str_eq(acc[j].0.as_str(), id) {
            assert(p[j as int].0 == id@);
            return true;
        }
        j += 1;
    }
    false
}

/// The visited Folders in deletion order: deepest first, Brain order within
/// one depth.
pub fn deletion_order_of(folders: &Vec<Folder>, acc: &Vec<(String, usize)>, max_depth: usize) -> (r: Vec<
    Folder,
>)
    ensures
        r@ == deletion_order(folders@, entries_view(acc@), max_depth as int),
{
    let ghost p = entries_view(acc@);
    let mut r: Vec<Folder> = Vec::new();
    let mut d: usize = max_depth;
    while d > 0
        invariant
            d <= max_depth,
            p == entries_view(acc@),
            r@ + deletion_order(folders@, p, d as int) == deletion_order(folders@, p, max_depth as int),
        decreases d,
    {
        let ghost before = r@;
        let mut i: usize = 0;
        while i < folders.len()
            invariant
                i <= folders.len(),
                0 < d,
                p == entries_view(acc@),
                r@ == before + folders_at_depth(folders@.take(i as int), p, d as int),
            decreases folders.len() - i,
        {
            assert(folders@.take(i + 1).drop_last() =~= folders@.take(i as int));
            if walked_at_depth(acc, folders[i].id.as_str(), d) {
                r.push(copy_folder(&folders[i]));
            }
            i += 1;
            assert(r@ =~= before + folders_at_depth(folders@.take(i as int), p, d as int));
        }
        assert(folders@.take(i as int) =~= folders@);
        assert(r@ + deletion_order(folders@, p, d - 1) =~= before + deletion_order(folders@, p, d as int));
        d -= 1;
    }
    assert(r@ =~= r@ + deletion_order(folders@, p, 0));
    r
}

/// The current objects of the visited Folders and how many of them are live.
pub fn subtree_objects_of(objects: &Vec<CurrentEncryptedObject>, acc: &Vec<(String, usize)>) -> (r: (
    Vec<CurrentEncryptedObject>,
    usize,
))
    ensures
        r.0@ == subtree_objects(objects@, entries_view(acc@)),
        r.1 == live_count(r.0@),
{
    let ghost p = entries_view(acc@);
    let mut r: Vec<CurrentEncryptedObject> = Vec::new();
    let mut live: usize = 0;
    let mut i: usize = 0;
    while i < objects.len()
        invariant
            i <= objects.len(),
            p == entries_view(acc@),
            r@ == subtree_objects(objects@.take(i as int), p),
            live == live_count(r@),
            live <= r.len() <= i,
        decreases objects.len() - i,
    {
        assert(objects@.take(i + 1).drop_last() =~= objects@.take(i as int));
        if walked_id(acc, objects[i].folder_id.as_str()) {
            let o = copy_object(&objects[i]);
            let ghost prev = r@;
            r.push(o);
            assert(r@.drop_last() =~= prev);
            if !objects[i].deleted {
                live += 1;
            }
        }
        i += 1;
    }
    assert(objects@.take(i as int) =~= objects@);
    (r, live)
}

/// Add the text unless the list holds it already.
pub fn add_text(r: &mut Vec<String>, u: &str)
    requires
        texts_distinct(old(r)@),
    ensures
        texts_distinct(final(r)@),
        forall|x: Seq<char>| #[trigger] seq_has(final(r)@, x) <==> (seq_has(old(r)@, x) || x == u@),
{
    if !texts_contain(r, u) {
        let ghost prev = r@;
        r.push(u.to_owned());
        proof {
            assert forall|x: Seq<char>| #[trigger] seq_has(r@, x) <==> (seq_has(prev, x) || x == u@) by {
                if seq_has(r@, x) {
                    let i = choose|i: int| 0 <= i < r@.len() && (#[trigger] r@[i])@ == x;
                    if i < prev.len() {
                        assert(prev[i] == r@[i]);
                    }
                }
                if seq_has(prev, x) {
                    let i = choose|i: int| 0 <= i < prev.len() && (#[trigger] prev[i])@ == x;
                    assert(r@[i] == prev[i]);
                }
                if x == u@ {
                    assert(r@[prev.len() as int]@ == u@);
                }
            }
            assert forall|i: int, j: int| 0 <= i < j < r@.len() implies (#[trigger] r@[i])@ != (
            #[trigger] r@[j])@ by {
                if j == prev.len() {
                    assert(r@[i] == prev[i]);
                } else {
                    assert(r@[i] == prev[i]);
                    assert(r@[j] == prev[j]);
                }
            }
        }
    }
}

/// A prefix one longer holds the texts of the shorter one and the next text.
pub proof fn lemma_seq_has_take_step(us: Seq<String>, i: int)
    requires
        0 <= i < us.len(),
    ensures
        forall|x: Seq<char>|
            #[trigger] seq_has(us.take(i + 1), x) <==> (seq_has(us.take(i), x) || x == us[i]@),
{
    assert forall|x: Seq<char>| #[trigger] seq_has(us.take(i + 1), x) <==> (seq_has(us.take(i), x) || x
        == us[i]@) by {
        if seq_has(us.take(i + 1), x) {
            let k = choose|k: int| 0 <= k < i + 1 && (#[trigger] us.take(i + 1)[k])@ == x;
            if k < i {
                assert(us.take(i)[k] == us.take(i + 1)[k]);
            }
        }
        if seq_has(us.take(i), x) {
            let k = choose|k: int| 0 <= k < i && (#[trigger] us.take(i)[k])@ == x;
            assert(us.take(i + 1)[k] == us.take(i)[k]);
        }
        if x == us[i]@ {
            assert(us.take(i + 1)[i] == us[i]);
        }
    }
}

/// Add every text of `us` that the list does not hold yet.
pub fn add_texts(r: &mut Vec<String>, us: &Vec<String>)
    requires
        texts_distinct(old(r)@),
    ensures
        texts_distinct(final(r)@),
        forall|x: Seq<char>| #[trigger] seq_has(final(r)@, x) <==> (seq_has(old(r)@, x) || seq_has(us@, x)),
{
    let ghost start = r@;
    let mut i: usize = 0;
    while i < us.len()
        invariant
            i <= us.len(),
            texts_distinct(r@),
            forall|x: Seq<char>| #[trigger] seq_has(r@, x) <==> (seq_has(start, x) || seq_has(us@.take(i as int), x)),
        decreases us.len() - i,
    {
        let ghost prev = r@;
        add_text(r, us[i].as_str());
        proof {
            lemma_seq_has_take_step(us@, i as int);
            assert forall|x: Seq<char>| #[trigger] seq_has(r@, x) <==> (seq_has(start, x) || seq_has(us@.take(i + 1), x)) by {
                assert(seq_has(r@, x) == (seq_has(prev, x) || x == us@[i as int]@));
                assert(seq_has(prev, x) == (seq_has(start, x) || seq_has(us@.take(i as int), x)));
                assert(seq_has(us@.take(i + 1), x) == (seq_has(us@.take(i as int), x) || x == us@[i as int]@));
            }
        }
        i += 1;
    }
    proof {
        assert(us@.take(i as int) =~= us@);
    }
}

/// Some deleted Folder has the access mode.
pub open spec fn some_deleted_with(deleted: Seq<Folder>, access: FolderAccessMode) -> bool {
    exists|i: int| 0 <= i < deleted.len() && (#[trigger] deleted[i]).access == access
}

/// One of the first `k` deleted Folders is Restricted and the user holds
/// explicit access to it.
pub open spec fn restricted_reader(stored: StoredBrain, deleted: Seq<Folder>, k: int, u: Seq<char>) -> bool {
    exists|i: int|
        0 <= i < k && (#[trigger] deleted[i]).access == FolderAccessMode::Restricted && has_explicit_access(
            stored,
            deleted[i].id@,
            u,
        )
}

/// Who must learn of the deletion: the owner, the admins, the Personal
/// Agent, every Member when an Organization deletes an all-members Folder,
/// and the explicit readers of each deleted Restricted Folder.
pub open spec fn deletion_reader(stored: StoredBrain, deleted: Seq<Folder>, u: Seq<char>) -> bool {
    ||| is_owner(stored.brain, u)
    ||| is_admin(stored.brain, u)
    ||| is_personal_agent(stored, u)
    ||| (stored.brain.kind == BrainKind::Organization && some_deleted_with(
        deleted,
        FolderAccessMode::AllMembers,
    ) && is_member(stored.brain, u))
    ||| restricted_reader(stored, deleted, deleted.len() as int, u)
}

/// The explicit readers of one Folder, added to the list.
fn add_explicit_readers(r: &mut Vec<String>, stored: &StoredBrain, folder_id: &str)
    requires
        texts_distinct(old(r)@),
    ensures
        texts_distinct(final(r)@),
        forall|x: Seq<char>|
            seq_has(final(r)@, x) <==> (seq_has(old(r)@, x) || has_explicit_access(*stored, folder_id@, x)),
{
    let ghost start = r@;
    let ghost es = stored.folder_access@;
    let mut m: usize = 0;
    while m < stored.folder_access.len()
        invariant
            m <= stored.folder_access.len(),
            es == stored.folder_access@,
            texts_distinct(r@),
            forall|x: Seq<char>|
                #[trigger] seq_has(r@, x) <==> (seq_has(start, x) || exists|e: int|
                    0 <= e < m && (#[trigger] es[e]).folder_id@ == folder_id@ && seq_has(es[e].user_ids@, x)),
        decreases stored.folder_access.len() - m,
    {
        let entry = &stored.folder_access[m];
        if str_eq(entry.folder_id.as_str(), folder_id) {
            add_texts(r, &entry.user_ids);
        }
        proof {
            assert forall|x: Seq<char>|
                #[trigger] seq_has(r@, x) <==> (seq_has(start, x) || exists|e: int|
                    0 <= e < m + 1 && (#[trigger] es[e]).folder_id@ == folder_id@ && seq_has(es[e].user_ids@, x)) by {
                if exists|e: int|
                    0 <= e < m + 1 && (#[trigger] es[e]).folder_id@ == folder_id@ && seq_has(es[e].user_ids@, x) {
                    let e = choose|e: int|
                        0 <= e < m + 1 && (#[trigger] es[e]).folder_id@ == folder_id@ && seq_has(es[e].user_ids@, x);
                    if e < m {
                        assert(exists|e: int|
                            0 <= e < m && (#[trigger] es[e]).folder_id@ == folder_id@ && seq_has(es[e].user_ids@, x));
                    }
                }
            }
        }
        m += 1;
    }
}

/// The readers who must learn of the deletion of these Folders, each once.
pub fn deletion_audience(stored: &StoredBrain, deleted: &Vec<Folder>) -> (r: Vec<String>)
    ensures
        texts_distinct(r@),
        forall|u: Seq<char>| #[trigger] seq_has(r@, u) <==> deletion_reader(*stored, deleted@, u),
{
    let mut r: Vec<String> = Vec::new();
    if let Some(owner) = &stored.brain.owner_user_id {
        add_text(&mut r, owner.as_str());
    }
    add_texts(&mut r, &stored.brain.admins);
    if let Some(agent) = &stored.personal_agent {
        add_text(&mut r, agent.agent_npub.as_str());
    }
    let ghost base = r@;
    proof {
        assert forall|u: Seq<char>| seq_has(base, u) <==> (is_owner(stored.brain, u) || is_admin(stored.brain, u)
            || is_personal_agent(*stored, u)) by {}
    }
    let mut i: usize = 0;
    while i < deleted.len()
        invariant
            i <= deleted.len(),
            texts_distinct(r@),
            forall|u: Seq<char>|
                #[trigger] seq_has(r@, u) <==> (seq_has(base, u) || (stored.brain.kind == BrainKind::Organization
                    && (exists|k: int| 0 <= k < i && (#[trigger] deleted@[k]).access == FolderAccessMode::AllMembers)
                    && is_member(stored.brain, u)) || restricted_reader(*stored, deleted@, i as int, u)),
        decreases deleted.len() - i,
    {
        let ghost before = r@;
        let f = &deleted[i];
        if f.access == FolderAccessMode::AllMembers && stored.brain.kind == BrainKind::Organization {
            let mut j: usize = 0;
            while j < stored.brain.members.len()
                invariant
                    j <= stored.brain.members.len(),
                    texts_distinct(r@),
                    forall|u: Seq<char>|
                        #[trigger] seq_has(r@, u) <==> (seq_has(before, u) || exists|m: int|
                            0 <= m < j && (#[trigger] stored.brain.members@[m]).user_id@ == u),
                decreases stored.brain.members.len() - j,
            {
                add_text(&mut r, stored.brain.members[j].user_id.as_str());
                j += 1;
            }
            proof {
                assert forall|u: Seq<char>| #[trigger] seq_has(r@, u) <==> (seq_has(before, u) || is_member(stored.brain, u)) by {}
            }
        }
        if f.access == FolderAccessMode::Restricted {
            add_explicit_readers(&mut r, stored, f.id.as_str());
        }
        proof {
            assert forall|u: Seq<char>|
                #[trigger] seq_has(r@, u) <==> (seq_has(base, u) || (stored.brain.kind == BrainKind::Organization
                    && (exists|k: int| 0 <= k < i + 1 && (#[trigger] deleted@[k]).access == FolderAccessMode::AllMembers)
                    && is_member(stored.brain, u)) || restricted_reader(*stored, deleted@, i + 1, u)) by {
                if restricted_reader(*stored, deleted@, i + 1, u) && !restricted_reader(*stored, deleted@, i as int, u) {
                    let k = choose|k: int|
                        0 <= k < i + 1 && (#[trigger] deleted@[k]).access == FolderAccessMode::Restricted
                            && has_explicit_access(*stored, deleted@[k].id@, u);
                    assert(k == i);
                }
                if restricted_reader(*stored, deleted@, i as int, u) {
                    let k = choose|k: int|
                        0 <= k < i && (#[trigger] deleted@[k]).access == FolderAccessMode::Restricted
                            && has_explicit_access(*stored, deleted@[k].id@, u);
                    assert(restricted_reader(*stored, deleted@, i + 1, u));
                }
                if f.access == FolderAccessMode::Restricted && has_explicit_access(*stored, f.id@, u) {
                    assert(restricted_reader(*stored, deleted@, i + 1, u));
                }
                if exists|k: int| 0 <= k < i + 1 && (#[trigger] deleted@[k]).access == FolderAccessMode::AllMembers {
                    let k = choose|k: int| 0 <= k < i + 1 && (#[trigger] deleted@[k]).access == FolderAccessMode::AllMembers;
                    if k < i {
                        assert(exists|k: int| 0 <= k < i && (#[trigger] deleted@[k]).access == FolderAccessMode::AllMembers);
                    }
                }
            }
        }
        i += 1;
    }
    r
}

/// Deterministic work counters for one direct Folder subtree deletion.
#[derive(Debug, Clone, Copy, Default, PartialEq, Eq, Structural)]
pub struct FolderDeletionWork {
    pub descendants_visited: usize,
    pub objects_collected: usize,
    pub audience_collected: usize,
    pub invitations_scanned: usize,
    pub invitations_deleted: usize,
    pub mutation_statements: usize,
    pub max_statement_parameters: usize,
    pub retry_attempts: usize,
}

/// The scope shown to a user before destructive confirmation: the Folder
/// ids (as a set) and the number of live objects.
#[derive(Debug, Clone, PartialEq, Eq)]
pub struct FolderDeletionExpectation {
    pub folder_ids: Vec<String>,
    pub object_count: usize,
}

/// Retained facts needed to validate an exact retry after a Folder is gone.
#[derive(Debug, Clone, PartialEq, Eq)]
pub struct FolderDeletionReplay {
    pub deletion_event_id: String,
    pub actor_npub: String,
    pub root_key_version: u32,
    pub folder_count: usize,
    pub object_count: usize,
}

/// Result of atomically deleting one Folder subtree.
#[derive(Debug, Clone, PartialEq, Eq)]
pub struct FolderSubtreeDeletion {
    pub sequence: u64,
    pub duplicate: bool,
    pub folder_count: usize,
    pub object_count: usize,
    pub deleted_folder_ids: Vec<String>,
    /// Content-free deterministic accounting for the bounded delete transaction.
    pub work: FolderDeletionWork,
}

/// What a fresh subtree deletion removes, decided before anything is written.
#[derive(Debug, Clone, PartialEq, Eq)]
pub struct FolderDeletionPlan {
    /// The visited Folders with their depths, in walk order.
    pub walked: Vec<(String, usize)>,
    /// The Folders to delete, deepest first.
    pub deleted_folders: Vec<Folder>,
    /// Current objects, live or tombstoned, of the deleted Folders.
    pub objects: Vec<CurrentEncryptedObject>,
    /// Number of live objects among them.
    pub live_object_count: usize,
    /// Readers told of the deletion, each once.
    pub audience: Vec<String>,
}

/// First step of a subtree deletion: an exact retry of a recorded deletion,
/// or a fresh deletion with its plan.
#[derive(Debug, Clone, PartialEq, Eq)]
pub enum FolderDeletionStep {
    Duplicate(FolderDeletionReplay),
    Delete(FolderDeletionPlan),
}

/// The confirmed scope names exactly the visited Folders and the live
/// object count.
pub open spec fn expectation_holds(x: FolderDeletionExpectation, p: Seq<(Seq<char>, int)>, live: nat) -> bool {
    &&& forall|id: Seq<char>| seq_has(x.folder_ids@, id) <==> walked(p, id)
    &&& x.object_count == live
}

/// The plan deletes exactly what the walk from the root reaches.
pub open spec fn plan_matches(
    plan: FolderDeletionPlan,
    stored: StoredBrain,
    root: Seq<char>,
    objects: Seq<CurrentEncryptedObject>,
    max_depth: int,
) -> bool {
    let p = walk(stored.brain.folders@, root, 1, max_depth);
    &&& entries_view(plan.walked@) == p
    &&& plan.deleted_folders@ == deletion_order(stored.brain.folders@, p, max_depth)
    &&& plan.objects@ == subtree_objects(objects, p)
    &&& plan.live_object_count == live_count(plan.objects@)
    &&& texts_distinct(plan.audience@)
    &&& forall|u: Seq<char>| #[trigger] seq_has(plan.audience@, u) <==> deletion_reader(stored, plan.deleted_folders@, u)
}

/// The Folder Key changed since the caller read it.
pub open spec fn is_stale_key(e: StoreError, current: u32) -> bool {
    match e {
        StoreError::Conflict { reason, current_revision: Some(c) } => reason@
            == "Folder Key version changed before deletion"@ && c == current,
        _ => false,
    }
}

/// Outcome of starting a Folder subtree deletion.
pub open spec fn folder_deletion_outcome(
    r: Result<FolderDeletionStep, StoreError>,
    stored: StoredBrain,
    actor: Seq<char>,
    root: Seq<char>,
    expected_key_version: u32,
    deletion_event_id: Seq<char>,
    replay: Option<FolderDeletionReplay>,
    objects: Seq<CurrentEncryptedObject>,
    expectation: Option<FolderDeletionExpectation>,
    max_depth: int,
    max_folders: int,
) -> bool {
    if !has_operational_authority(stored, actor) {
        r matches Err(e) && is_broken(e, "Folder deletion requires brain destructive authority"@)
    } else {
        match replay {
            Some(x) => if x.deletion_event_id@ != deletion_event_id || x.actor_npub@ != actor
                || x.root_key_version != expected_key_version {
                r matches Err(e) && is_broken(e, "Folder identity was already permanently deleted"@)
            } else {
                r == Ok::<FolderDeletionStep, StoreError>(FolderDeletionStep::Duplicate(x))
            },
            None => match folder_with_id(stored.brain.folders@, root) {
                None => r matches Err(e) && is_missing_folder(e, root),
                Some(f) => {
                    let p = walk(stored.brain.folders@, root, 1, max_depth);
                    if f.current_key_version != expected_key_version {
                        r matches Err(e) && is_stale_key(e, f.current_key_version)
                    } else if !walk_ok(p, max_depth, max_folders) {
                        r matches Err(e) && walk_fails_with(e, p, max_depth, max_folders)
                    } else if expectation matches Some(x) && !expectation_holds(
                        x,
                        p,
                        live_count(subtree_objects(objects, p)),
                    ) {
                        r matches Err(e) && is_conflict(e, "Folder subtree changed after destructive confirmation"@)
                    } else {
                        match r {
                            Ok(FolderDeletionStep::Delete(plan)) => plan_matches(plan, stored, root, objects, max_depth),
                            _ => false,
                        }
                    }
                },
            },
        }
    }
}

/// The confirmed scope against the walk and the live object count.
fn check_expectation(x: &FolderDeletionExpectation, acc: &Vec<(String, usize)>, live: usize) -> (r: bool)
    ensures
        r == expectation_holds(*x, entries_view(acc@), live as nat),
{
    let ghost p = entries_view(acc@);
    if x.object_count != live {
        return false;
    }
    let mut i: usize = 0;
    while i < x.folder_ids.len()
        invariant
            i <= x.folder_ids.len(),
            p == entries_view(acc@),
            forall|k: int| 0 <= k < i ==> walked(p, (#[trigger] x.folder_ids@[k])@),
        decreases x.folder_ids.len() - i,
    {
        if !walked_id(acc, x.folder_ids[i].as_str()) {
            assert(seq_has(x.folder_ids@, x.folder_ids@[i as int]@));
            return false;
        }
        i += 1;
    }
    let mut j: usize = 0;
    while j < acc.len()
        invariant
            j <= acc.len(),
            p == entries_view(acc@),
            forall|k: int| 0 <= k < x.folder_ids.len() ==> walked(p, (#[trigger] x.folder_ids@[k])@),
            forall|k: int| 0 <= k < j ==> seq_has(x.folder_ids@, (#[trigger] p[k]).0),
        decreases acc.len() - j,
    {
        if !texts_contain(&x.folder_ids, acc[j].0.as_str()) {
            assert(p[j as int].0 == acc@[j as int].0@);
            assert(walked(p, p[j as int].0));
            return false;
        }
        j += 1;
    }
    proof {
        assert forall|id: Seq<char>| seq_has(x.folder_ids@, id) <==> walked(p, id) by {
            if seq_has(x.folder_ids@, id) {
                let k = choose|k: int| 0 <= k < x.folder_ids@.len() && (#[trigger] x.folder_ids@[k])@ == id;
                assert(walked(p, x.folder_ids@[k]@));
            }
            if walked(p, id) {
                let k = choose|k: int| 0 <= k < p.len() && (#[trigger] p[k]).0 == id;
                assert(seq_has(x.folder_ids@, p[k].0));
            }
        }
    }
    true
}

/// Start a permanent Folder subtree deletion: only an actor with Brain
/// destructive authority may delete; a recorded deletion of the root is an
/// exact retry only with the same event, actor and root key version; the
/// root must exist at the expected key version; the walk below it must stay
/// within the depth and Folder limits without revisiting a Folder; and a
/// confirmed scope must still match. The plan lists the Folders deepest
/// first, their current objects, the live object count and the readers to
/// tell.
pub fn begin_folder_deletion(
    stored: &StoredBrain,
    actor_npub: &str,
    root_folder_id: &str,
    expected_key_version: u32,
    deletion_event_id: &str,
    replay: Option<&FolderDeletionReplay>,
    current_objects: &Vec<CurrentEncryptedObject>,
    expectation: Option<&FolderDeletionExpectation>,
    max_depth: usize,
    max_folders: usize,
) -> (r: Result<FolderDeletionStep, StoreError>)
    requires
        max_depth < usize::MAX,
    ensures
        folder_deletion_outcome(
            r,
            *stored,
            actor_npub@,
            root_folder_id@,
            expected_key_version,
            deletion_event_id@,
            match replay {
                Some(x) => Some(*x),
                None => None,
            },
            current_objects@,
            match expectation {
                Some(x) => Some(*x),
                None => None,
            },
            max_depth as int,
            max_folders as int,
        ),
{
    if !has_brain_operational_authority(stored, actor_npub) {
        return Err(broken("Folder deletion requires brain destructive authority"));
    }
    if let Some(existing) = replay {
        if !str_eq(existing.deletion_event_id.as_str(), deletion_event_id) || !str_eq(
            existing.actor_npub.as_str(),
            actor_npub,
        ) || existing.root_key_version != expected_key_version {
            return Err(broken("Folder identity was already permanently deleted"));
        }
        return Ok(
            FolderDeletionStep::Duplicate(
                FolderDeletionReplay {
                    deletion_event_id: existing.deletion_event_id.clone(),
                    actor_npub: existing.actor_npub.clone(),
                    root_key_version: existing.root_key_version,
                    folder_count: existing.folder_count,
                    object_count: existing.object_count,
                },
            ),
        );
    }
    let idx = match find_folder(&stored.brain.folders, root_folder_id) {
        None => {
            return Err(StoreError::MissingFolder { folder_id: root_folder_id.to_owned() });
        },
        Some(i) => i,
    };
    let current = stored.brain.folders[idx].current_key_version;
    if current != expected_key_version {
        return Err(
            StoreError::Conflict {
                reason: "Folder Key version changed before deletion".to_owned(),
                current_revision: Some(current as u64),
            },
        );
    }
    let walked = match subtree_walk(&stored.brain.folders, root_folder_id, max_depth, max_folders) {
        Err(e) => {
            return Err(e);
        },
        Ok(v) => v,
    };
    let deleted_folders = deletion_order_of(&stored.brain.folders, &walked, max_depth);
    let (objects, live_object_count) = subtree_objects_of(current_objects, &walked);
    if let Some(x) = expectation {
        if !check_expectation(x, &walked, live_object_count) {
            return Err(
                StoreError::Conflict {
                    reason: "Folder subtree changed after destructive confirmation".to_owned(),
                    current_revision: None,
                },
            );
        }
    }
    let audience = deletion_audience(stored, &deleted_folders);
    Ok(FolderDeletionStep::Delete(FolderDeletionPlan { walked, deleted_folders, objects, live_object_count, audience }))
}

/// Statements a fresh deletion writes: one per reader, object and pending
/// invitation it deletes, three per Folder, and the deletion record.
pub open spec fn mutation_statements(plan: FolderDeletionPlan, invitations_deleted: int) -> int {
    plan.audience.len() + plan.objects.len() + 3 * plan.deleted_folders.len() + invitations_deleted + 1
}

/// Work counters of a fresh deletion.
pub fn deletion_work(plan: &FolderDeletionPlan, invitations_scanned: usize, invitations_deleted: usize) -> (w:
    FolderDeletionWork)
    requires
        mutation_statements(*plan, invitations_deleted as int) <= usize::MAX,
    ensures
        w == (FolderDeletionWork {
            descendants_visited: plan.deleted_folders.len(),
            objects_collected: plan.objects.len(),
            audience_collected: plan.audience.len(),
            invitations_scanned,
            invitations_deleted,
            mutation_statements: mutation_statements(*plan, invitations_deleted as int) as usize,
            max_statement_parameters: 10,
            retry_attempts: 0,
        }),
{
    let folders = plan.deleted_folders.len();
    FolderDeletionWork {
        descendants_visited: folders,
        objects_collected: plan.objects.len(),
        audience_collected: plan.audience.len(),
        invitations_scanned,
        invitations_deleted,
        mutation_statements: plan.audience.len() + plan.objects.len() + folders + invitations_deleted + folders
            + folders + 1,
        max_statement_parameters: 10,
        retry_attempts: 0,
    }
}

/// The ids of the Folders, in order.
pub fn folder_ids(folders: &Vec<Folder>) -> (r: Vec<String>)
    ensures
        r@.map_values(|s: String| s@) == folders@.map_values(|f: Folder| f.id@),
{
    let mut r: Vec<String> = Vec::new();
    let mut i: usize = 0;
    while i < folders.len()
        invariant
            i <= folders.len(),
            r.len() == i,
            forall|k: int| 0 <= k < i ==> (#[trigger] r@[k])@ == folders@[k].id@,
        decreases folders.len() - i,
    {
        r.push(folders[i].id.clone());
        i += 1;
    }
    assert(r@.map_values(|s: String| s@) =~= folders@.map_values(|f: Folder| f.id@));
    r
}

/// What the store keeps of a fresh deletion to answer its exact retry:
/// the event, the actor, the root key version and the counts.
pub open spec fn records_deletion(
    x: FolderDeletionReplay,
    deletion_event_id: Seq<char>,
    actor: Seq<char>,
    root_key_version: u32,
    d: FolderSubtreeDeletion,
) -> bool {
    &&& x.deletion_event_id@ == deletion_event_id
    &&& x.actor_npub@ == actor
    &&& x.root_key_version == root_key_version
    &&& x.folder_count == d.folder_count
    &&& x.object_count == d.object_count
}

/// The retry record of a fresh deletion.
pub fn deletion_replay_record(
    deletion_event_id: &str,
    actor_npub: &str,
    root_key_version: u32,
    deletion: &FolderSubtreeDeletion,
) -> (r: FolderDeletionReplay)
    ensures
        records_deletion(r, deletion_event_id@, actor_npub@, root_key_version, *deletion),
{
    FolderDeletionReplay {
        deletion_event_id: deletion_event_id.to_owned(),
        actor_npub: actor_npub.to_owned(),
        root_key_version,
        folder_count: deletion.folder_count,
        object_count: deletion.object_count,
    }
}

/// The result of a fresh deletion recorded at `sequence`.
pub fn fresh_deletion(sequence: u64, plan: &FolderDeletionPlan, work: FolderDeletionWork) -> (r: FolderSubtreeDeletion)
    ensures
        r.sequence == sequence,
        !r.duplicate,
        r.folder_count == plan.deleted_folders.len(),
        r.object_count == plan.live_object_count,
        r.deleted_folder_ids@.map_values(|s: String| s@) == plan.deleted_folders@.map_values(|f: Folder| f.id@),
        r.work == work,
{
    FolderSubtreeDeletion {
        sequence,
        duplicate: false,
        folder_count: plan.deleted_folders.len(),
        object_count: plan.live_object_count,
        deleted_folder_ids: folder_ids(&plan.deleted_folders),
        work,
    }
}

/// The result of an exact retry of the deletion recorded at `sequence`:
/// the recorded counts and Folder ids, and no work.
pub fn duplicate_deletion(sequence: u64, replay: &FolderDeletionReplay, deleted_folder_ids: Vec<String>) -> (r:
    FolderSubtreeDeletion)
    ensures
        r == (FolderSubtreeDeletion {
            sequence,
            duplicate: true,
            folder_count: replay.folder_count,
            object_count: replay.object_count,
            deleted_folder_ids,
            work: FolderDeletionWork {
                descendants_visited: 0,
                objects_collected: 0,
                audience_collected: 0,
                invitations_scanned: 0,
                invitations_deleted: 0,
                mutation_statements: 0,
                max_statement_parameters: 0,
                retry_attempts: 0,
            },
        }),
{
    FolderSubtreeDeletion {
        sequence,
        duplicate: true,
        folder_count: replay.folder_count,
        object_count: replay.object_count,
        deleted_folder_ids,
        work: FolderDeletionWork {
            descendants_visited: 0,
            objects_collected: 0,
            audience_collected: 0,
            invitations_scanned: 0,
            invitations_deleted: 0,
            mutation_statements: 0,
            max_statement_parameters: 0,
            retry_attempts: 0,
        },
    }
}

/// A pending Brain Invitation with its stored initial Folder scope (a JSON
/// array of Folder ids).
#[derive(Debug, Clone, PartialEq, Eq)]
pub struct PendingInvitationScope {
    pub id: String,
    pub initial_folder_access_json: String,
}

/// What `serde_json::from_str::<Vec<String>>` makes of a text: the strings
/// of a JSON array of strings, or the message of the parse error for any
/// other text.
pub uninterp spec fn json_string_list(text: Seq<char>) -> Result<Seq<Seq<char>>, Seq<char>>;

/// Parses a JSON array of strings with `serde_json::from_str::<Vec<String>>`,
/// a failure carried as the error's message (`to_string`). Trusted: the
/// result is the named parse of the text; no claim is made of which texts
/// parse or of the message's wording.
#[verifier::external_body]
pub(crate) fn parse_string_list(text: &str) -> (r: Result<Vec<String>, String>)
    ensures
        match r {
            Ok(v) => json_string_list(text@) == Ok::<Seq<Seq<char>>, Seq<char>>(v@.map_values(|s: String| s@)),
            Err(m) => json_string_list(text@) == Err::<Seq<Seq<char>>, Seq<char>>(m@),
        },
{
    match serde_json::from_str::<Vec<String>>(text) {
        Ok(v) => Ok(v),
        Err(error) => Err(error.to_string()),
    }
}

/// What `serde_json::from_str::<serde_json::Value>` makes of a text:
/// whether the JSON value is an object, or nothing when the text is not
/// JSON.
pub uninterp spec fn json_is_object(text: Seq<char>) -> Option<bool>;

/// The encoding (`serde_json::to_string`) of the JSON object a text holds
/// with the field `key` set to the array of the strings; nothing when the
/// text is not a JSON object or the encoding fails.
pub uninterp spec fn json_object_with_string_list(text: Seq<char>, key: Seq<char>, items: Seq<Seq<char>>) -> Option<
    Seq<char>,
>;

/// Parses a text with `serde_json::from_str::<serde_json::Value>` and tells
/// whether the value is an object (`Value::is_object`). Trusted: the result
/// is the named reading of the text; which texts are JSON is not stated.
#[verifier::external_body]
fn json_object_kind(text: &str) -> (r: Option<bool>)
    ensures
        r == json_is_object(text@),
{
    match serde_json::from_str::<serde_json::Value>(text) {
        Ok(value) => Some(value.is_object()),
        Err(_) => None,
    }
}

/// Parses a JSON object with `serde_json::from_str`, sets the field `key`
/// to the array of the strings (`Map::insert`) and encodes it again with
/// `serde_json::to_string`. Trusted: the result is the named encoding.
#[verifier::external_body]
fn set_string_list_field(text: &str, key: &str, items: &Vec<String>) -> (r: Option<String>)
    ensures
        match r {
            Some(s) => json_object_with_string_list(text@, key@, items@.map_values(|i: String| i@)) == Some(s@),
            None => json_object_with_string_list(text@, key@, items@.map_values(|i: String| i@)) is None,
        },
{
    match serde_json::from_str::<serde_json::Value>(text) {
        Ok(serde_json::Value::Object(mut map)) => {
            let list = items.iter().map(|i| serde_json::Value::String(i.clone())).collect();
            map.insert(key.to_owned(), serde_json::Value::Array(list));
            serde_json::to_string(&serde_json::Value::Object(map)).ok()
        },
        _ => None,
    }
}

/// The error is `InvalidRecord` with exactly this reason.
pub open spec fn is_invalid_record(e: StoreError, reason: Seq<char>) -> bool {
    e matches StoreError::InvalidRecord { reason: r } && r@ == reason
}

/// The deletion record's payload with the deleted Folder ids under
/// `folderIds`: the payload must be JSON, and a JSON object.
pub fn folder_deletion_payload(payload_json: &str, deleted_folder_ids: &Vec<String>) -> (r: Result<String, StoreError>)
    ensures
        match json_is_object(payload_json@) {
            None => r matches Err(e) && is_invalid_record(e, "Folder deletion payload is invalid"@),
            Some(false) => r matches Err(e) && is_invalid_record(e, "Folder deletion payload must be an object"@),
            Some(true) => match json_object_with_string_list(
                payload_json@,
                "folderIds"@,
                deleted_folder_ids@.map_values(|i: String| i@),
            ) {
                Some(s) => r matches Ok(t) && t@ == s,
                None => r matches Err(e) && is_invalid_record(e, "Folder deletion payload could not be encoded"@),
            },
        },
{
    match json_object_kind(payload_json) {
        None => {
            return Err(StoreError::InvalidRecord { reason: "Folder deletion payload is invalid".to_owned() });
        },
        Some(false) => {
            return Err(StoreError::InvalidRecord { reason: "Folder deletion payload must be an object".to_owned() });
        },
        Some(true) => {},
    }
    match set_string_list_field(payload_json, "folderIds", deleted_folder_ids) {
        Some(s) => Ok(s),
        None => Err(StoreError::InvalidRecord { reason: "Folder deletion payload could not be encoded".to_owned() }),
    }
}

/// What `serde_json::to_string` makes of a list of strings: the JSON text,
/// or the error's message.
pub uninterp spec fn json_text_of_strings(items: Seq<Seq<char>>) -> Result<Seq<char>, Seq<char>>;

/// Encodes a list of strings with `serde_json::to_string`. Trusted: the
/// result is the named encoding, the error carried as its message.
#[verifier::external_body]
pub(crate) fn encode_string_list(items: &Vec<String>) -> (r: Result<String, String>)
    ensures
        match r {
            Ok(s) => json_text_of_strings(items@.map_values(|i: String| i@)) == Ok::<Seq<char>, Seq<char>>(s@),
            Err(m) => json_text_of_strings(items@.map_values(|i: String| i@)) == Err::<Seq<char>, Seq<char>>(m@),
        },
{
    match serde_json::to_string(items) {
        Ok(s) => Ok(s),
        Err(error) => Err(error.to_string()),
    }
}

/// JSON text of a list of Folder ids, as invitation columns store it; an
/// encoding failure is a database error with its message.
pub fn folder_id_vec_json(folder_ids: &Vec<String>) -> (r: Result<String, StoreError>)
    ensures
        match json_text_of_strings(folder_ids@.map_values(|i: String| i@)) {
            Ok(s) => r matches Ok(t) && t@ == s,
            Err(m) => r matches Err(StoreError::Database { message }) && message@ == m,
        },
{
    match encode_string_list(folder_ids) {
        Ok(s) => Ok(s),
        Err(message) => Err(StoreError::Database { message }),
    }
}

/// Some Folder of the scope was visited.
pub open spec fn scope_touches(scope: Seq<Seq<char>>, p: Seq<(Seq<char>, int)>) -> bool {
    exists|i: int| 0 <= i < scope.len() && walked(p, #[trigger] scope[i])
}

/// True when some Folder of the scope is among the visited Folders.
pub fn scope_touches_subtree(scope: &Vec<String>, visited_folders: &Vec<(String, usize)>) -> (r: bool)
    ensures
        r == scope_touches(scope@.map_values(|s: String| s@), entries_view(visited_folders@)),
{
    let ghost sv = scope@.map_values(|s: String| s@);
    let mut i: usize = 0;
    while i < scope.len()
        invariant
            i <= scope.len(),
            sv == scope@.map_values(|s: String| s@),
            forall|k: int| 0 <= k < i ==> !walked(entries_view(visited_folders@), #[trigger] sv[k]),
        decreases scope.len() - i,
    {
        if walked_id(visited_folders, scope[i].as_str()) {
            assert(sv[i as int] == scope@[i as int]@);
            return true;
        }
        i += 1;
    }
    false
}

/// Some pending invitation's stored scope does not parse.
pub open spec fn some_scope_invalid(pending: Seq<PendingInvitationScope>) -> bool {
    exists|i: int| 0 <= i < pending.len() && json_string_list((#[trigger] pending[i]).initial_folder_access_json@) is Err
}

/// Ids of the pending invitations whose parsed scope names a visited Folder.
pub open spec fn touching_invitations(pending: Seq<PendingInvitationScope>, p: Seq<(Seq<char>, int)>) -> Seq<
    Seq<char>,
>
    decreases pending.len(),
{
    if pending.len() == 0 {
        Seq::empty()
    } else {
        let prev = touching_invitations(pending.drop_last(), p);
        match json_string_list(pending.last().initial_folder_access_json@) {
            Ok(scope) => if scope_touches(scope, p) {
                prev.push(pending.last().id@)
            } else {
                prev
            },
            Err(_) => prev,
        }
    }
}

/// The pending invitations a subtree deletion revokes: those whose initial
/// Folder scope names a deleted Folder. A stored scope that is not a JSON
/// array of strings is an invalid record.
pub fn invitations_in_subtree(pending: &Vec<PendingInvitationScope>, visited_folders: &Vec<(String, usize)>) -> (r: Result<
    Vec<String>,
    StoreError,
>)
    ensures
        match r {
            Ok(ids) => !some_scope_invalid(pending@) && ids@.map_values(|s: String| s@) == touching_invitations(
                pending@,
                entries_view(visited_folders@),
            ),
            Err(e) => some_scope_invalid(pending@) && e == (StoreError::InvalidRecord {
                reason: e->InvalidRecord_reason,
            }) && e->InvalidRecord_reason@ == "stored Brain Invitation Folder scope is invalid"@,
        },
{
    let ghost p = entries_view(visited_folders@);
    let mut ids: Vec<String> = Vec::new();
    let mut i: usize = 0;
    while i < pending.len()
        invariant
            i <= pending.len(),
            p == entries_view(visited_folders@),
            !some_scope_invalid(pending@.take(i as int)),
            ids.len() == touching_invitations(pending@.take(i as int), p).len(),
            forall|k: int| 0 <= k < ids.len() ==> (#[trigger] ids@[k])@ == touching_invitations(pending@.take(i as int), p)[k],
        decreases pending.len() - i,
    {
        assert(pending@.take(i + 1).drop_last() =~= pending@.take(i as int));
        let scope = match parse_string_list(pending[i].initial_folder_access_json.as_str()) {
            Err(_) => {
                assert(json_string_list(pending@[i as int].initial_folder_access_json@) is Err);
                return Err(StoreError::InvalidRecord { reason: "stored Brain Invitation Folder scope is invalid".to_owned() });
            },
            Ok(v) => v,
        };
        if scope_touches_subtree(&scope, visited_folders) {
            ids.push(pending[i].id.clone());
        }
        proof {
            assert forall|k: int| 0 <= k < i + 1 implies json_string_list(
                (#[trigger] pending@.take(i + 1)[k]).initial_folder_access_json@,
            ) is Ok by {
                if k < i {
                    assert(pending@.take(i + 1)[k] == pending@.take(i as int)[k]);
                }
            }
        }
        i += 1;
    }
    assert(pending@.take(i as int) =~= pending@);
    assert(ids@.map_values(|s: String| s@) =~= touching_invitations(pending@, p));
    Ok(ids)
}

} // verus!
