//! Properties of the store that span several calls or every input.
use vstd::prelude::*;

use crate::bootstrap::{equivalent_brains, organization_existing_outcome};
use crate::deletion::{records_deletion, FolderSubtreeDeletion, 
    child_ids, deletion_order, folders_at_depth, is_child_of, walk, walk_ok, walked, walked_at,
    walks,
};
use crate::deletion::{
    folder_deletion_outcome, FolderDeletionExpectation, FolderDeletionReplay, FolderDeletionStep,
};
use crate::departure::{
    cursor_after, departure_fact_decision, marked_after, marker_for, DepartureFactApplication,
    DeparturePendingRotation,
};
use crate::cohorts::{reconciliation_commit_outcome, reviewed_missing, ReconciliationCommitStep, ReconciliationFolderPlan};
use crate::export::CurrentEncryptedObject;
use crate::grants::{grant_triples_distinct, grants_triple};
use crate::records::SyncRecordInput;
use crate::text::blank_or_control;
use crate::kinds::LinkStatus;
use crate::links::{
    expired, invitation_available, rfc3339_instant, share_link_available, StoredBrainInvitation,
    StoredShareLink,
};
use crate::access::folder_visible;
use crate::model::{folder_with_id, has_explicit_access, is_personal_agent, StoredBrain};
use crate::db_errors::{
    all_digits, capacity_marker, capacity_of, digits_value, first_from, first_word, is_first_from,
    lemma_first_from, lemma_lead_non_ws, occurs_at, parse_usize,
};
use crate::error::StoreError;
use crate::links::{canonical_email, canonical_email_outcome};
use crate::model::{Brain, Folder, FolderKeyGrantMetadata};
use crate::text::{ascii_lower, ascii_lowered, decimal, digit_char, is_blank, is_whitespace_char, lead_ws, trail_ws, trimmed};

verus! {

/// Leading whitespace stops at the first other character.
pub proof fn lemma_lead_ws_props(s: Seq<char>)
    ensures
        lead_ws(s) <= s.len(),
        forall|i: int| 0 <= i < lead_ws(s) ==> is_whitespace_char(#[trigger] s[i]),
        lead_ws(s) < s.len() ==> !is_whitespace_char(s[lead_ws(s) as int]),
    decreases s.len(),
{
    if s.len() > 0 && is_whitespace_char(s[0]) {
        lemma_lead_ws_props(s.drop_first());
        assert forall|i: int| 0 <= i < lead_ws(s) implies is_whitespace_char(#[trigger] s[i]) by {
            if i > 0 {
                assert(s[i] == s.drop_first()[i - 1]);
            }
        }
        if lead_ws(s) < s.len() {
            assert(s[lead_ws(s) as int] == s.drop_first()[lead_ws(s.drop_first()) as int]);
        }
    }
}

/// Trailing whitespace stops at the last other character.
pub proof fn lemma_trail_ws_props(s: Seq<char>)
    ensures
        trail_ws(s) <= s.len(),
        forall|i: int| s.len() - trail_ws(s) <= i < s.len() ==> is_whitespace_char(#[trigger] s[i]),
        trail_ws(s) < s.len() ==> !is_whitespace_char(s[s.len() - trail_ws(s) - 1]),
    decreases s.len(),
{
    if s.len() > 0 && is_whitespace_char(s.last()) {
        lemma_trail_ws_props(s.drop_last());
        assert forall|i: int| s.len() - trail_ws(s) <= i < s.len() implies is_whitespace_char(#[trigger] s[i]) by {
            if i < s.len() - 1 {
                assert(s[i] == s.drop_last()[i]);
            }
        }
        if trail_ws(s) < s.len() {
            assert(s[s.len() - trail_ws(s) - 1] == s.drop_last()[s.drop_last().len() - trail_ws(s.drop_last()) - 1]);
        }
    }
}

/// Lowering ASCII letters keeps whitespace whitespace and other characters
/// not whitespace.
proof fn lemma_lower_keeps_whitespace(c: char)
    ensures
        is_whitespace_char(ascii_lower(c)) == is_whitespace_char(c),
        ascii_lower(ascii_lower(c)) == ascii_lower(c),
{
}

/// A trimmed, lowered text is its own trimmed, lowered form.
proof fn lemma_canonical_fixed(v: Seq<char>)
    ensures
        canonical_email(canonical_email(v)) == canonical_email(v),
{
    let t = trimmed(v);
    let c = ascii_lowered(t);
    lemma_lead_ws_props(v);
    lemma_trail_ws_props(v);
    let a = lead_ws(v) as int;
    let b = trail_ws(v) as int;
    assert forall|i: int| 0 <= i < c.len() implies #[trigger] c[i] == ascii_lower(t[i]) by {}
    if a == v.len() {
        assert(t.len() == 0);
        assert(c.len() == 0);
        assert(lead_ws(c) == 0);
        assert(trimmed(c) =~= Seq::<char>::empty());
        assert(ascii_lowered(trimmed(c)) =~= c);
    } else {
        assert(!is_whitespace_char(v[a]));
        assert(a < v.len() - b) by {
            if a >= v.len() - b {
                assert(is_whitespace_char(v[a]));
            }
        }
        assert(t =~= v.subrange(a, v.len() - b));
        assert(t[0] == v[a]);
        assert(!is_whitespace_char(v[v.len() - b - 1]));
        assert(t[t.len() - 1] == v[v.len() - b - 1]);
        lemma_lower_keeps_whitespace(t[0]);
        lemma_lower_keeps_whitespace(t[t.len() - 1]);
        assert(!is_whitespace_char(c[0]));
        assert(!is_whitespace_char(c[c.len() - 1]));
        crate::text::lemma_lead_ws(c, 0);
        crate::text::lemma_trail_ws(c, 0);
        assert(trimmed(c) =~= c);
        assert forall|i: int| 0 <= i < c.len() implies #[trigger] ascii_lowered(c)[i] == c[i] by {
            lemma_lower_keeps_whitespace(t[i]);
        }
        assert(ascii_lowered(trimmed(c)) =~= c);
    }
}

/// Canonicalising an invited email is idempotent: the canonical form of an
/// accepted address is accepted again and unchanged.
pub proof fn lemma_canonical_email_idempotent(
    value: Seq<char>,
    first: Result<String, StoreError>,
    again: Result<String, StoreError>,
)
    requires
        canonical_email_outcome(first, value),
        first is Ok,
        canonical_email_outcome(again, first->Ok_0@),
    ensures
        again matches Ok(s) && s@ == first->Ok_0@,
{
    lemma_canonical_fixed(value);
}

/// Applying a departure fact again once the cursor has reached its revision
/// changes nothing: the fact is reported as already covered.
pub proof fn lemma_departure_replay_is_noop(a: DepartureFactApplication, r: Result<bool, StoreError>)
    requires
        a.fact_revision > 0,
        !is_blank(a.principal_ref@),
        departure_fact_decision(r, a, a.fact_revision),
    ensures
        r == Ok::<bool, StoreError>(false),
{
}

/// A Folder of the Brain is in the deletion order of one depth exactly when
/// the walk visited it at that depth.
proof fn lemma_folders_at_depth(fs: Seq<Folder>, p: Seq<(Seq<char>, int)>, d: int, f: Folder)
    ensures
        folders_at_depth(fs, p, d).contains(f) <==> (fs.contains(f) && walked_at(p, f.id@, d)),
    decreases fs.len(),
{
    if fs.len() > 0 {
        lemma_folders_at_depth(fs.drop_last(), p, d, f);
        if fs.drop_last().contains(f) {
            let k = choose|k: int| 0 <= k < fs.drop_last().len() && fs.drop_last()[k] == f;
            assert(fs[k] == f);
        }
        if fs.contains(f) && f != fs.last() {
            let k = choose|k: int| 0 <= k < fs.len() && fs[k] == f;
            assert(k < fs.len() - 1);
            assert(fs.drop_last()[k] == f);
        }
        let prev = folders_at_depth(fs.drop_last(), p, d);
        if walked_at(p, fs.last().id@, d) {
            assert(prev.push(fs.last())[prev.len() as int] == fs.last());
            if prev.contains(f) {
                let k = choose|k: int| 0 <= k < prev.len() && prev[k] == f;
                assert(prev.push(fs.last())[k] == f);
            }
            if prev.push(fs.last()).contains(f) && f != fs.last() {
                let k = choose|k: int| 0 <= k < prev.len() + 1 && prev.push(fs.last())[k] == f;
                assert(prev[k] == f);
            }
        }
        assert(fs[fs.len() - 1] == fs.last());
    }
}

/// A Folder is in the deletion order down to depth `d` exactly when the
/// walk visited it at a depth from 1 to `d`.
proof fn lemma_deletion_order_members(fs: Seq<Folder>, p: Seq<(Seq<char>, int)>, d: int, f: Folder)
    ensures
        deletion_order(fs, p, d).contains(f) <==> (fs.contains(f) && exists|e: int| 1 <= e <= d && walked_at(p, f.id@, e)),
    decreases d,
{
    if d > 0 {
        lemma_deletion_order_members(fs, p, d - 1, f);
        lemma_folders_at_depth(fs, p, d, f);
        let here = folders_at_depth(fs, p, d);
        let rest = deletion_order(fs, p, d - 1);
        if (here + rest).contains(f) {
            let k = choose|k: int| 0 <= k < (here + rest).len() && (here + rest)[k] == f;
            if k < here.len() {
                assert(here[k] == f);
            } else {
                assert(rest[k - here.len()] == f);
            }
        }
        if here.contains(f) {
            let k = choose|k: int| 0 <= k < here.len() && here[k] == f;
            assert((here + rest)[k] == f);
        }
        if rest.contains(f) {
            let k = choose|k: int| 0 <= k < rest.len() && rest[k] == f;
            assert((here + rest)[here.len() + k] == f);
        }
        if fs.contains(f) && exists|e: int| 1 <= e <= d && walked_at(p, f.id@, e) {
            let e = choose|e: int| 1 <= e <= d && walked_at(p, f.id@, e);
            if e < d {
                assert(exists|e: int| 1 <= e <= d - 1 && walked_at(p, f.id@, e));
            }
        }
    }
}

/// A subtree deletion deletes exactly the subtree: a Brain Folder is among
/// the deleted Folders exactly when the walk from the root visited it.
pub proof fn lemma_subtree_deletion_is_exact(
    fs: Seq<Folder>,
    root: Seq<char>,
    max_depth: int,
    max_folders: int,
    f: Folder,
)
    requires
        walk_ok(walk(fs, root, 1, max_depth), max_depth, max_folders),
    ensures
        deletion_order(fs, walk(fs, root, 1, max_depth), max_depth).contains(f) <==> (fs.contains(f) && walked(
            walk(fs, root, 1, max_depth),
            f.id@,
        )),
{
    let p = walk(fs, root, 1, max_depth);
    lemma_deletion_order_members(fs, p, max_depth, f);
    if walked(p, f.id@) {
        let i = choose|i: int| 0 <= i < p.len() && (#[trigger] p[i]).0 == f.id@;
        assert(crate::deletion::entry_ok(p, i, max_depth, max_folders));
        assert(p.contains(p[i]));
        lemma_walk_depths(fs, root, 1, max_depth, p[i]);
        assert(walked_at(p, f.id@, p[i].1));
    }
    if exists|e: int| 1 <= e <= max_depth && walked_at(p, f.id@, e) {
        let e = choose|e: int| 1 <= e <= max_depth && walked_at(p, f.id@, e);
        let i = choose|i: int| 0 <= i < p.len() && #[trigger] p[i] == (f.id@, e);
        assert(p[i].0 == f.id@);
    }
}

/// An exact retry of a bootstrap names a Brain equivalent to the stored one.
pub proof fn lemma_bootstrap_retry_is_equivalent(b: Brain)
    ensures
        equivalent_brains(b, b),
{
}

/// A Brain Invitation is single-user: at one moment it is available to at
/// most one user.
pub proof fn lemma_invitation_is_single_user(inv: StoredBrainInvitation, u: Seq<char>, v: Seq<char>, now: Seq<char>)
    requires
        invitation_available(inv, u, now),
        invitation_available(inv, v, now),
    ensures
        u == v,
{
}

/// Revoked, accepted and expired invitations cannot be accepted.
pub proof fn lemma_closed_invitation_is_unavailable(inv: StoredBrainInvitation, u: Seq<char>, now: Seq<char>)
    requires
        inv.status != LinkStatus::Pending || expired(inv.expires_at@, now),
    ensures
        !invitation_available(inv, u, now),
{
}

/// A Share Link is available only to its one recipient, and never once it
/// is no longer pending or has expired.
pub proof fn lemma_share_link_is_single_use(link: StoredShareLink, u: Seq<char>, v: Seq<char>, now: Seq<char>)
    ensures
        share_link_available(link, u, now) && share_link_available(link, v, now) ==> u == v,
        link.status != LinkStatus::Pending || expired(link.expires_at@, now) ==> !share_link_available(link, u, now),
{
}

/// Expiry compares instants, not text: two expiries naming the same
/// instant expire together.
pub proof fn lemma_expiry_compares_instants(a: Seq<char>, b: Seq<char>, now: Seq<char>)
    requires
        a.len() > 0,
        b.len() > 0,
        rfc3339_instant(a) == rfc3339_instant(b),
    ensures
        expired(a, now) == expired(b, now),
{
}

/// Once expired, an expiry stays expired at every later instant.
pub proof fn lemma_expiry_is_monotone(e: Seq<char>, now: Seq<char>, later: Seq<char>)
    requires
        rfc3339_instant(now) is Some,
        rfc3339_instant(later) is Some,
        rfc3339_instant(now)->0 <= rfc3339_instant(later)->0,
        expired(e, now),
    ensures
        expired(e, later),
{
}

/// A deleted Folder identity stays dead: once a deletion of the root is
/// recorded, no new deletion is planned for it; only the exact retry is
/// answered, with the recorded deletion.
pub proof fn lemma_deleted_folder_stays_dead(
    r: Result<FolderDeletionStep, StoreError>,
    stored: StoredBrain,
    actor: Seq<char>,
    root: Seq<char>,
    expected_key_version: u32,
    deletion_event_id: Seq<char>,
    recorded: FolderDeletionReplay,
    objects: Seq<CurrentEncryptedObject>,
    expectation: Option<FolderDeletionExpectation>,
    max_depth: int,
    max_folders: int,
)
    requires
        folder_deletion_outcome(
            r,
            stored,
            actor,
            root,
            expected_key_version,
            deletion_event_id,
            Some(recorded),
            objects,
            expectation,
            max_depth,
            max_folders,
        ),
    ensures
        !(r matches Ok(FolderDeletionStep::Delete(_))),
        r matches Ok(FolderDeletionStep::Duplicate(x)) ==> x == recorded && recorded.deletion_event_id@ == deletion_event_id
            && recorded.actor_npub@ == actor && recorded.root_key_version == expected_key_version,
{
}

/// The texts of a pending re-wrap marker.
pub open spec fn marker_view(m: Option<DeparturePendingRotation>) -> Option<(Seq<char>, Seq<char>, i64, u32)> {
    match m {
        Some(x) => Some((x.brain_id@, x.folder_id@, x.marked_at_revision, x.key_version)),
        None => None,
    }
}

/// Marking a Folder again with the same fact changes no marker: the
/// pending re-wrap markers are an upsert keyed by Brain and Folder.
pub proof fn lemma_marking_twice_is_marking_once(
    m0: Seq<DeparturePendingRotation>,
    m1: Seq<DeparturePendingRotation>,
    m2: Seq<DeparturePendingRotation>,
    brain_id: Seq<char>,
    folder_id: Seq<char>,
    key_version: u32,
    fact_revision: i64,
    b: Seq<char>,
    f: Seq<char>,
)
    requires
        marked_after(m0, m1, brain_id, folder_id, key_version, fact_revision),
        marked_after(m1, m2, brain_id, folder_id, key_version, fact_revision),
    ensures
        marker_view(marker_for(m2, b, f)) == marker_view(marker_for(m1, b, f)),
{
    if !(b == brain_id && f == folder_id) {
        assert(marker_for(m2, b, f) == marker_for(m1, b, f));
    }
}

/// Bootstrap equivalence is symmetric: a retry matches the stored Brain
/// exactly when the stored Brain matches the retry.
pub proof fn lemma_bootstrap_equivalence_is_symmetric(a: Brain, b: Brain)
    ensures
        equivalent_brains(a, b) == equivalent_brains(b, a),
{
    if equivalent_brains(a, b) {
        assert(b.folders@.map_values(|f: Folder| crate::bootstrap::folder_view(f)) == a.folders@.map_values(
            |f: Folder| crate::bootstrap::folder_view(f),
        ));
    }
    if equivalent_brains(b, a) {
        assert(a.folders@.map_values(|f: Folder| crate::bootstrap::folder_view(f)) == b.folders@.map_values(
            |f: Folder| crate::bootstrap::folder_view(f),
        ));
    }
}

/// An element of a concatenation comes from one of its parts.
proof fn lemma_concat_contains<A>(a: Seq<A>, b: Seq<A>, e: A)
    ensures
        (a + b).contains(e) <==> (a.contains(e) || b.contains(e)),
{
    if (a + b).contains(e) {
        let k = choose|k: int| 0 <= k < (a + b).len() && (a + b)[k] == e;
        if k < a.len() {
            assert(a[k] == e);
        } else {
            assert(b[k - a.len()] == e);
        }
    }
    if a.contains(e) {
        let k = choose|k: int| 0 <= k < a.len() && a[k] == e;
        assert((a + b)[k] == e);
    }
    if b.contains(e) {
        let k = choose|k: int| 0 <= k < b.len() && b[k] == e;
        assert((a + b)[a.len() + k] == e);
    }
}

/// A Folder naming the parent is among the parent's children.
proof fn lemma_child_listed(fs: Seq<Folder>, parent: Seq<char>, k: int)
    requires
        0 <= k < fs.len(),
        is_child_of(fs[k], parent),
    ensures
        child_ids(fs, parent).contains(fs[k].id@),
    decreases fs.len(),
{
    let prev = child_ids(fs.drop_last(), parent);
    if k == fs.len() - 1 {
        assert(child_ids(fs, parent) == prev.push(fs[k].id@));
        assert(child_ids(fs, parent)[prev.len() as int] == fs[k].id@);
    } else {
        assert(fs.drop_last()[k] == fs[k]);
        lemma_child_listed(fs.drop_last(), parent, k);
        let m = choose|m: int| 0 <= m < prev.len() && prev[m] == fs[k].id@;
        if is_child_of(fs.last(), parent) {
            assert(child_ids(fs, parent)[m] == prev[m]);
        }
    }
}

/// Every entry of a walk is at least as deep as where it started.
proof fn lemma_walk_depths(fs: Seq<Folder>, id: Seq<char>, depth: int, max_depth: int, e: (Seq<char>, int))
    requires
        walk(fs, id, depth, max_depth).contains(e),
    ensures
        e.1 >= depth,
    decreases max_depth + 1 - depth, 0int,
{
    if depth <= max_depth {
        let ws = walks(fs, child_ids(fs, id), depth + 1, max_depth);
        lemma_concat_contains(seq![(id, depth)], ws, e);
        if ws.contains(e) {
            lemma_walks_depths(fs, child_ids(fs, id), depth + 1, max_depth, e);
        }
    }
}

proof fn lemma_walks_depths(fs: Seq<Folder>, kids: Seq<Seq<char>>, depth: int, max_depth: int, e: (Seq<char>, int))
    requires
        walks(fs, kids, depth, max_depth).contains(e),
    ensures
        e.1 >= depth,
    decreases max_depth + 1 - depth, kids.len(),
{
    if kids.len() > 0 {
        let a = walks(fs, kids.drop_last(), depth, max_depth);
        let b = walk(fs, kids.last(), depth, max_depth);
        lemma_concat_contains(a, b, e);
        if a.contains(e) {
            lemma_walks_depths(fs, kids.drop_last(), depth, max_depth, e);
        } else {
            lemma_walk_depths(fs, kids.last(), depth, max_depth, e);
        }
    }
}

/// The walks of sibling Folders visit each sibling at their depth.
proof fn lemma_walks_visit_siblings(fs: Seq<Folder>, kids: Seq<Seq<char>>, depth: int, max_depth: int, i: int)
    requires
        0 <= i < kids.len(),
    ensures
        walks(fs, kids, depth, max_depth).contains((kids[i], depth)),
    decreases kids.len(),
{
    let a = walks(fs, kids.drop_last(), depth, max_depth);
    let b = walk(fs, kids.last(), depth, max_depth);
    if i == kids.len() - 1 {
        assert(b[0] == (kids[i], depth));
        assert(b.contains((kids[i], depth)));
    } else {
        assert(kids.drop_last()[i] == kids[i]);
        lemma_walks_visit_siblings(fs, kids.drop_last(), depth, max_depth, i);
    }
    lemma_concat_contains(a, b, (kids[i], depth));
}

/// A walk that visits a Folder within the depth limit visits each of its
/// children one level deeper.
proof fn lemma_walk_visits_children(
    fs: Seq<Folder>,
    id: Seq<char>,
    depth: int,
    max_depth: int,
    x: Seq<char>,
    d: int,
    k: Seq<char>,
)
    requires
        walk(fs, id, depth, max_depth).contains((x, d)),
        d <= max_depth,
        child_ids(fs, x).contains(k),
    ensures
        walk(fs, id, depth, max_depth).contains((k, d + 1)),
    decreases max_depth + 1 - depth, 0int,
{
    if depth > max_depth {
        assert(walk(fs, id, depth, max_depth)[0] == (id, depth));
    } else {
        let head = seq![(id, depth)];
        let ws = walks(fs, child_ids(fs, id), depth + 1, max_depth);
        lemma_concat_contains(head, ws, (x, d));
        lemma_concat_contains(head, ws, (k, d + 1));
        if head.contains((x, d)) {
            assert(head[0] == (x, d));
            let i = choose|i: int| 0 <= i < child_ids(fs, x).len() && child_ids(fs, x)[i] == k;
            lemma_walks_visit_siblings(fs, child_ids(fs, id), depth + 1, max_depth, i);
        } else {
            lemma_walks_visit_children(fs, child_ids(fs, id), depth + 1, max_depth, x, d, k);
        }
    }
}

proof fn lemma_walks_visit_children(
    fs: Seq<Folder>,
    kids: Seq<Seq<char>>,
    depth: int,
    max_depth: int,
    x: Seq<char>,
    d: int,
    k: Seq<char>,
)
    requires
        walks(fs, kids, depth, max_depth).contains((x, d)),
        d <= max_depth,
        child_ids(fs, x).contains(k),
    ensures
        walks(fs, kids, depth, max_depth).contains((k, d + 1)),
    decreases max_depth + 1 - depth, kids.len(),
{
    if kids.len() > 0 {
        let a = walks(fs, kids.drop_last(), depth, max_depth);
        let b = walk(fs, kids.last(), depth, max_depth);
        lemma_concat_contains(a, b, (x, d));
        lemma_concat_contains(a, b, (k, d + 1));
        if a.contains((x, d)) {
            lemma_walks_visit_children(fs, kids.drop_last(), depth, max_depth, x, d, k);
        } else {
            lemma_walk_visits_children(fs, kids.last(), depth, max_depth, x, d, k);
        }
    }
}

/// Without repeated visits, a Folder id has one depth.
proof fn lemma_one_depth(p: Seq<(Seq<char>, int)>, max_depth: int, max_folders: int, id: Seq<char>, d1: int, d2: int)
    requires
        walk_ok(p, max_depth, max_folders),
        walked_at(p, id, d1),
        walked_at(p, id, d2),
    ensures
        d1 == d2,
{
    let a = choose|a: int| 0 <= a < p.len() && #[trigger] p[a] == (id, d1);
    let b = choose|b: int| 0 <= b < p.len() && #[trigger] p[b] == (id, d2);
    assert(crate::deletion::entry_ok(p, a, max_depth, max_folders));
    assert(crate::deletion::entry_ok(p, b, max_depth, max_folders));
    if a < b {
        assert(p[a].0 != p[b].0);
    } else if b < a {
        assert(p[b].0 != p[a].0);
    }
}

/// In the deletion order, a Folder visited deeper comes first.
proof fn lemma_deeper_first(
    fs: Seq<Folder>,
    p: Seq<(Seq<char>, int)>,
    max_depth: int,
    max_folders: int,
    d: int,
    i: int,
    j: int,
    ei: int,
    ej: int,
)
    requires
        walk_ok(p, max_depth, max_folders),
        0 <= i < deletion_order(fs, p, d).len(),
        0 <= j < deletion_order(fs, p, d).len(),
        walked_at(p, deletion_order(fs, p, d)[i].id@, ei),
        walked_at(p, deletion_order(fs, p, d)[j].id@, ej),
        ej > ei,
    ensures
        j < i,
    decreases d,
{
    let order = deletion_order(fs, p, d);
    let here = folders_at_depth(fs, p, d);
    let rest = deletion_order(fs, p, d - 1);
    assert(d > 0);
    assert(order == here + rest);
    if i < here.len() {
        lemma_folders_at_depth(fs, p, d, here[i]);
        assert(here.contains(here[i]));
        assert(order[i] == here[i]);
        lemma_one_depth(p, max_depth, max_folders, here[i].id@, d, ei);
        if j < here.len() {
            lemma_folders_at_depth(fs, p, d, here[j]);
            assert(here.contains(here[j]));
            assert(order[j] == here[j]);
            lemma_one_depth(p, max_depth, max_folders, here[j].id@, d, ej);
        } else {
            let g = rest[j - here.len()];
            assert(order[j] == g);
            assert(rest.contains(g));
            lemma_deletion_order_members(fs, p, d - 1, g);
            let e = choose|e: int| 1 <= e <= d - 1 && walked_at(p, g.id@, e);
            lemma_one_depth(p, max_depth, max_folders, g.id@, e, ej);
        }
    } else if j >= here.len() {
        assert(order[i] == rest[i - here.len()]);
        assert(order[j] == rest[j - here.len()]);
        lemma_deeper_first(fs, p, max_depth, max_folders, d - 1, i - here.len(), j - here.len(), ei, ej);
    }
}

/// A subtree deletion removes children before their parents: when both a
/// Folder and its parent are deleted, the Folder comes first.
pub proof fn lemma_subtree_deletion_children_first(
    fs: Seq<Folder>,
    root: Seq<char>,
    max_depth: int,
    max_folders: int,
    i: int,
    j: int,
)
    requires
        walk_ok(walk(fs, root, 1, max_depth), max_depth, max_folders),
        0 <= i < deletion_order(fs, walk(fs, root, 1, max_depth), max_depth).len(),
        0 <= j < deletion_order(fs, walk(fs, root, 1, max_depth), max_depth).len(),
        is_child_of(
            deletion_order(fs, walk(fs, root, 1, max_depth), max_depth)[j],
            deletion_order(fs, walk(fs, root, 1, max_depth), max_depth)[i].id@,
        ),
    ensures
        j < i,
{
    let p = walk(fs, root, 1, max_depth);
    let order = deletion_order(fs, p, max_depth);
    let parent = order[i];
    let child = order[j];
    assert(order.contains(parent));
    assert(order.contains(child));
    lemma_deletion_order_members(fs, p, max_depth, parent);
    lemma_deletion_order_members(fs, p, max_depth, child);
    let ei = choose|e: int| 1 <= e <= max_depth && walked_at(p, parent.id@, e);
    let ej = choose|e: int| 1 <= e <= max_depth && walked_at(p, child.id@, e);
    let k = choose|k: int| 0 <= k < fs.len() && fs[k] == child;
    lemma_child_listed(fs, parent.id@, k);
    let a = choose|a: int| 0 <= a < p.len() && #[trigger] p[a] == (parent.id@, ei);
    assert(p.contains((parent.id@, ei)));
    lemma_walk_visits_children(fs, root, 1, max_depth, parent.id@, ei, child.id@);
    let b = choose|b: int| 0 <= b < p.len() && p[b] == (child.id@, ei + 1);
    assert(walked_at(p, child.id@, ei + 1));
    lemma_one_depth(p, max_depth, max_folders, child.id@, ei + 1, ej);
    lemma_deeper_first(fs, p, max_depth, max_folders, max_depth, i, j, ei, ej);
}

/// Explicit Folder access is orthogonal to the native access mode: a user
/// holding explicit access to an existing Folder reads it, whatever its mode.
pub proof fn lemma_explicit_access_reads_any_mode(stored: StoredBrain, folder_id: Seq<char>, u: Seq<char>)
    requires
        folder_with_id(stored.brain.folders@, folder_id) is Some,
        has_explicit_access(stored, folder_id, u),
    ensures
        folder_visible(stored, folder_id, u),
{
}

/// The active Personal Agent reads every Folder of its Personal Brain.
pub proof fn lemma_personal_agent_reads_every_folder(stored: StoredBrain, folder_id: Seq<char>, u: Seq<char>)
    requires
        folder_with_id(stored.brain.folders@, folder_id) is Some,
        is_personal_agent(stored, u),
    ensures
        folder_visible(stored, folder_id, u),
{
}

/// The decimal digits of a number are digits, and read back as the number.
proof fn lemma_decimal_reads_back(n: nat)
    ensures
        decimal(n).len() >= 1,
        all_digits(decimal(n)),
        digits_value(decimal(n)) == n,
    decreases n,
{
    let d = (n % 10) as nat;
    assert((digit_char(d) as int) - ('0' as int) == d);
    if n >= 10 {
        lemma_decimal_reads_back(n / 10);
        let prev = decimal(n / 10);
        assert(decimal(n) == prev.push(digit_char(d)));
        assert(decimal(n).drop_last() =~= prev);
        assert(decimal(n).last() == digit_char(d));
        assert(digits_value(decimal(n)) == digits_value(prev) * 10 + d);
        assert((n / 10) * 10 + n % 10 == n) by (nonlinear_arith);
        assert forall|i: int| 0 <= i < decimal(n).len() implies '0' <= #[trigger] decimal(n)[i] <= '9' by {
            if i < prev.len() {
                assert(decimal(n)[i] == prev[i]);
            }
        }
    } else {
        assert(decimal(n).drop_last() =~= Seq::<char>::empty());
        assert(decimal(n).last() == digit_char(d));
        assert(digits_value(decimal(n)) == digits_value(Seq::<char>::empty()) * 10 + d);
    }
}

/// Where a text holds no occurrence of a pattern at or after `from`, there
/// is no first one.
proof fn lemma_no_first(s: Seq<char>, pat: Seq<char>, from: int)
    requires
        forall|j: int| from <= j ==> !occurs_at(s, pat, j),
    ensures
        first_from(s, pat, from) is None,
{
}

/// A first occurrence found at `i` is the first one.
proof fn lemma_first_at(s: Seq<char>, pat: Seq<char>, from: int, i: int)
    requires
        is_first_from(s, pat, from, i),
    ensures
        first_from(s, pat, from) == Some(i),
{
    lemma_first_from(s, pat, from);
    let k = first_from(s, pat, from)->0;
    assert(is_first_from(s, pat, from, k));
    if k < i {
        assert(!occurs_at(s, pat, k));
    }
    if i < k {
        assert(!occurs_at(s, pat, i));
    }
}

/// A capacity message: the marker, the limit, ':' and the maximum.
pub open spec fn capacity_message(limit: Seq<char>, max: nat) -> Seq<char> {
    capacity_marker() + limit + seq![':'] + decimal(max)
}

/// The limit of a capacity message holds no ':' and does not end in the
/// marker's name.
pub open spec fn plain_limit(limit: Seq<char>) -> bool {
    &&& forall|i: int| 0 <= i < limit.len() ==> #[trigger] limit[i] != ':'
    &&& (limit.len() < 15 || limit.subrange(limit.len() - 15, limit.len() as int) != "finite_capacity"@)
}

/// The marker occurs once in a capacity message, at its start.
proof fn lemma_capacity_marker_once(limit: Seq<char>, max: nat)
    requires
        plain_limit(limit),
    ensures
        first_from(capacity_message(limit, max), capacity_marker(), 0) == Some(0int),
        first_from(capacity_message(limit, max), capacity_marker(), 16) is None,
{
    reveal_strlit("finite_capacity:");
    reveal_strlit("finite_capacity");
    let mk = capacity_marker();
    let dm = decimal(max);
    lemma_decimal_reads_back(max);
    let m = capacity_message(limit, max);
    let ll = limit.len() as int;
    assert(mk.len() == 16);
    assert(m.len() == 17 + ll + dm.len());
    assert(m.subrange(0, 16) =~= mk);
    assert(is_first_from(m, mk, 0, 0));
    lemma_first_at(m, mk, 0, 0);
    assert forall|j: int| 16 <= j implies !occurs_at(m, mk, j) by {
        if occurs_at(m, mk, j) {
            assert(m.subrange(j, j + 16)[15] == mk[15]);
            assert(m[j + 15] == ':');
            if j + 15 < 16 + ll {
                assert(m[j + 15] == limit[j + 15 - 16]);
            } else if j + 15 > 16 + ll {
                assert(m[j + 15] == dm[j + 15 - 17 - ll]);
                assert('0' <= dm[j + 15 - 17 - ll] <= '9');
            } else {
                assert forall|t: int| 0 <= t < 15 implies limit.subrange(ll - 15, ll)[t] == "finite_capacity"@[t] by {
                    assert(m.subrange(j, j + 16)[t] == mk[t]);
                    assert(m[j + t] == limit[ll - 15 + t]);
                }
                assert(limit.subrange(ll - 15, ll) =~= "finite_capacity"@);
            }
        }
    }
    lemma_no_first(m, mk, 16);
}

/// After the marker, the first ':' ends the limit and the maximum follows.
proof fn lemma_capacity_fields(limit: Seq<char>, max: nat)
    requires
        plain_limit(limit),
    ensures
        ({
            let m = capacity_message(limit, max);
            let encoded = m.subrange(16, m.len() as int);
            &&& encoded == limit + seq![':'] + decimal(max)
            &&& first_from(encoded, seq![':'], 0) == Some(limit.len() as int)
            &&& encoded.skip(limit.len() + 1int) == decimal(max)
            &&& encoded.take(limit.len() as int) == limit
        }),
{
    reveal_strlit("finite_capacity:");
    let m = capacity_message(limit, max);
    let ll = limit.len() as int;
    let encoded = m.subrange(16, m.len() as int);
    assert(capacity_marker().len() == 16);
    assert(encoded =~= limit + seq![':'] + decimal(max));
    assert(encoded.subrange(ll, ll + 1) =~= seq![':']);
    assert forall|j: int| 0 <= j < ll implies !occurs_at(encoded, seq![':'], j) by {
        assert(encoded.subrange(j, j + 1)[0] == encoded[j]);
        assert(encoded[j] == limit[j]);
    }
    assert(is_first_from(encoded, seq![':'], 0, ll));
    lemma_first_at(encoded, seq![':'], 0, ll);
    assert(encoded.skip(ll + 1) =~= decimal(max));
    assert(encoded.take(ll) =~= limit);
}

/// The decimal digits of a number are its one word and parse back.
proof fn lemma_decimal_word(max: nat)
    requires
        max <= usize::MAX,
    ensures
        first_from(decimal(max), seq![':'], 0) is None,
        first_word(decimal(max)) == Some(decimal(max)),
        parse_usize(decimal(max)) == Some(max),
{
    let dm = decimal(max);
    lemma_decimal_reads_back(max);
    assert forall|j: int| 0 <= j implies !occurs_at(dm, seq![':'], j) by {
        if occurs_at(dm, seq![':'], j) {
            assert(dm.subrange(j, j + 1)[0] == dm[j]);
            assert('0' <= dm[j] <= '9');
        }
    }
    lemma_no_first(dm, seq![':'], 0);
    assert('0' <= dm[0] <= '9');
    assert(!is_whitespace_char(dm[0]));
    crate::text::lemma_lead_ws(dm, 0);
    assert(dm.skip(0) =~= dm);
    assert forall|i: int| 0 <= i < dm.len() implies !is_whitespace_char(#[trigger] dm[i]) by {
        assert('0' <= dm[i] <= '9');
    }
    lemma_lead_non_ws(dm, dm.len() as int);
    assert(dm.subrange(0, dm.len() as int) =~= dm);
}

/// A capacity guard's failure message names its limit and maximum back: a
/// message made of the marker, a limit name without ':' (and not ending in
/// the marker's name), ':' and the maximum in decimal reads back as that
/// limit and maximum.
pub proof fn lemma_capacity_message_round_trip(limit: Seq<char>, max: nat)
    requires
        plain_limit(limit),
        max <= usize::MAX,
    ensures
        capacity_of(capacity_message(limit, max)) == Some((limit, max)),
{
    lemma_capacity_marker_once(limit, max);
    lemma_capacity_fields(limit, max);
    lemma_decimal_word(max);
    reveal_strlit("finite_capacity:");
    assert(capacity_marker().len() == 16);
}

/// The departure cursor advances to the revision of every fact that goes
/// through, so replaying that fact, or any valid older one, afterwards is a
/// no-op.
pub proof fn lemma_departure_cursor_covers_replays(
    a: DepartureFactApplication,
    older: DepartureFactApplication,
    cursor: i64,
    r: Result<bool, StoreError>,
    replay: Result<bool, StoreError>,
)
    requires
        departure_fact_decision(r, a, cursor),
        r is Ok,
        departure_fact_decision(replay, older, cursor_after(cursor, a.fact_revision)),
        older.fact_revision <= a.fact_revision,
        older.fact_revision > 0,
        !is_blank(older.principal_ref@),
    ensures
        r == Ok::<bool, StoreError>(cursor < a.fact_revision),
        cursor_after(cursor, a.fact_revision) >= cursor,
        replay == Ok::<bool, StoreError>(false),
{
}

/// A deletion retried exactly, once its record is kept, is answered with
/// that record: the same counts as the deletion, and no new plan.
pub proof fn lemma_deletion_retry_answers_the_record(
    d: FolderSubtreeDeletion,
    recorded: FolderDeletionReplay,
    r: Result<FolderDeletionStep, StoreError>,
    stored: StoredBrain,
    actor: Seq<char>,
    root: Seq<char>,
    key_version: u32,
    deletion_event_id: Seq<char>,
    objects: Seq<CurrentEncryptedObject>,
    expectation: Option<FolderDeletionExpectation>,
    max_depth: int,
    max_folders: int,
)
    requires
        records_deletion(recorded, deletion_event_id, actor, key_version, d),
        crate::access::has_operational_authority(stored, actor),
        folder_deletion_outcome(
            r,
            stored,
            actor,
            root,
            key_version,
            deletion_event_id,
            Some(recorded),
            objects,
            expectation,
            max_depth,
            max_folders,
        ),
    ensures
        r == Ok::<FolderDeletionStep, StoreError>(FolderDeletionStep::Duplicate(recorded)),
        recorded.folder_count == d.folder_count,
        recorded.object_count == d.object_count,
{
}

/// Retrying an Organization bootstrap over the Brain it stored, with the
/// same grants, is an exact retry.
pub proof fn lemma_bootstrap_retry_over_stored_brain(
    stored: Brain,
    grants: Seq<FolderKeyGrantMetadata>,
    r: Result<bool, StoreError>,
)
    requires
        organization_existing_outcome(r, Some((stored, grants)), stored, grants),
    ensures
        r == Ok::<bool, StoreError>(true),
{
    lemma_bootstrap_retry_is_equivalent(stored);
}

/// Replaying a permanent Agent departure fact that was already applied to
/// the Brain is a no-op, whatever rotations and records come with it.
pub proof fn lemma_applied_agent_departure_is_noop(
    r: Result<crate::cohorts::PermanentAgentDepartureStep, StoreError>,
    stored: StoredBrain,
    post: Brain,
    cohorts: Seq<crate::cohorts::AccountCohortState>,
    fact_id: Seq<char>,
    account_id: Seq<char>,
    human_email: Seq<char>,
    agent_nip05: Seq<char>,
    agent: Seq<char>,
    departure_kind: Seq<char>,
    actor: Seq<char>,
    rotations: Seq<crate::member_removal::PreparedFolderRotation>,
    control_record_count: int,
    objects: Seq<CurrentEncryptedObject>,
)
    requires
        !crate::text::blank_or_control(fact_id),
        departure_kind == "unlinked"@ || departure_kind == "retired"@ || departure_kind == "deleted"@,
        crate::cohorts::permanent_departure_outcome(
            r,
            stored,
            post,
            cohorts,
            fact_id,
            account_id,
            human_email,
            agent_nip05,
            agent,
            departure_kind,
            actor,
            true,
            rotations,
            control_record_count,
            objects,
        ),
    ensures
        r == Ok::<crate::cohorts::PermanentAgentDepartureStep, StoreError>(
            crate::cohorts::PermanentAgentDepartureStep::AlreadyApplied,
        ),
{
}

/// A reconciliation whose receipt is already stored answers "already
/// committed" to a well-formed retry, whatever the review and grants say;
/// a commit that goes ahead writes exactly the reviewed missing grants, each
/// once.
pub proof fn lemma_reconciliation_commit_is_exactly_once(
    r: Result<ReconciliationCommitStep, StoreError>,
    stored: StoredBrain,
    operation_id: Seq<char>,
    backup_reference: Seq<char>,
    already_committed: bool,
    review_current: bool,
    folders: Seq<ReconciliationFolderPlan>,
    actor: Seq<char>,
    grants: Seq<FolderKeyGrantMetadata>,
    controls: Seq<SyncRecordInput>,
)
    requires
        reconciliation_commit_outcome(
            r,
            stored,
            operation_id,
            backup_reference,
            already_committed,
            review_current,
            folders,
            actor,
            grants,
            controls,
        ),
    ensures
        already_committed && !blank_or_control(operation_id) && !blank_or_control(backup_reference) ==> r
            == Ok::<ReconciliationCommitStep, StoreError>(ReconciliationCommitStep::AlreadyCommitted),
        r == Ok::<ReconciliationCommitStep, StoreError>(ReconciliationCommitStep::Commit) ==> {
            &&& !already_committed
            &&& review_current
            &&& grant_triples_distinct(grants)
            &&& forall|t: (Seq<char>, Seq<char>, u32)| grants_triple(grants, t) <==> reviewed_missing(folders, t)
        },
{
}

} // verus!
