//! Folder Key rotations: every live object re-encrypted exactly once, one
//! revision ahead, under the next key version.
use vstd::prelude::*;

use crate::error::{broken, is_broken, StoreError};
use crate::export::CurrentEncryptedObject;
use crate::records::FolderObjectRevisionSyncRecord;
use crate::text::str_eq;

verus! {

pub open spec fn live_has_object(live: Seq<CurrentEncryptedObject>, x: Seq<char>) -> bool {
    exists|i: int| 0 <= i < live.len() && (#[trigger] live[i]).object_id@ == x
}

pub open spec fn records_have_object(rs: Seq<FolderObjectRevisionSyncRecord>, x: Seq<char>) -> bool {
    exists|i: int| 0 <= i < rs.len() && (#[trigger] rs[i]).object_id@ == x
}

pub open spec fn live_ids_distinct(live: Seq<CurrentEncryptedObject>) -> bool {
    forall|i: int, j: int|
        0 <= i < j < live.len() ==> (#[trigger] live[i]).object_id@ != (#[trigger] live[j]).object_id@
}

pub open spec fn record_ids_distinct(rs: Seq<FolderObjectRevisionSyncRecord>) -> bool {
    forall|i: int, j: int|
        0 <= i < j < rs.len() ==> (#[trigger] rs[i]).object_id@ != (#[trigger] rs[j]).object_id@
}

/// Live objects and re-encrypted records name each object exactly once, and
/// the same objects.
pub open spec fn covers_each_live_object_once(
    live: Seq<CurrentEncryptedObject>,
    rs: Seq<FolderObjectRevisionSyncRecord>,
) -> bool {
    &&& live_ids_distinct(live)
    &&& record_ids_distinct(rs)
    &&& forall|x: Seq<char>| live_has_object(live, x) <==> records_have_object(rs, x)
}

/// The record re-encrypts the live object one revision ahead.
pub open spec fn advances(o: CurrentEncryptedObject, r: FolderObjectRevisionSyncRecord) -> bool {
    &&& r.folder_id@ == o.folder_id@
    &&& r.base_revision == Some(o.revision)
    &&& r.revision == o.revision + 1
}

/// Every record advances the live object it names.
pub open spec fn each_record_advances(
    live: Seq<CurrentEncryptedObject>,
    rs: Seq<FolderObjectRevisionSyncRecord>,
) -> bool {
    forall|i: int, j: int|
        0 <= i < live.len() && 0 <= j < rs.len() && (#[trigger] live[i]).object_id@ == (
        #[trigger] rs[j]).object_id@ ==> advances(live[i], rs[j])
}

/// Outcome of checking a rotation's re-encrypted records.
pub open spec fn rotation_records_outcome(
    r: Result<(), StoreError>,
    live: Seq<CurrentEncryptedObject>,
    rs: Seq<FolderObjectRevisionSyncRecord>,
) -> bool {
    if !covers_each_live_object_once(live, rs) {
        r matches Err(e) && is_broken(
            e,
            "folder key rotation must re-encrypt every live object exactly once"@,
        )
    } else if !each_record_advances(live, rs) {
        r matches Err(e) && is_broken(
            e,
            "folder key rotation records must advance each live object by one revision"@,
        )
    } else {
        r is Ok
    }
}

fn live_ids_are_distinct(live: &Vec<CurrentEncryptedObject>) -> (r: bool)
    ensures
        r == live_ids_distinct(live@),
{
    let mut j: usize = 0;
    while j < live.len()
        invariant
            j <= live.len(),
            forall|a: int, b: int|
                0 <= a < b < j ==> (#[trigger] live@[a]).object_id@ != (#[trigger] live@[b]).object_id@,
        decreases live.len() - j,
    {
        let mut i: usize = 0;
        while i < j
            invariant
                i <= j < live.len(),
                forall|a: int, b: int|
                    0 <= a < b < j ==> (#[trigger] live@[a]).object_id@ != (
                    #[trigger] live@[b]).object_id@,
                forall|a: int| 0 <= a < i ==> (#[trigger] live@[a]).object_id@ != live@[j as int].object_id@,
            decreases j - i,
        {
            if str_eq(live[i].object_id.as_str(), live[j].object_id.as_str()) {
                return false;
            }
            i += 1;
        }
        j += 1;
    }
    true
}

fn record_ids_are_distinct(rs: &Vec<FolderObjectRevisionSyncRecord>) -> (r: bool)
    ensures
        r == record_ids_distinct(rs@),
{
    let mut j: usize = 0;
    while j < rs.len()
        invariant
            j <= rs.len(),
            forall|a: int, b: int|
                0 <= a < b < j ==> (#[trigger] rs@[a]).object_id@ != (#[trigger] rs@[b]).object_id@,
        decreases rs.len() - j,
    {
        let mut i: usize = 0;
        while i < j
            invariant
                i <= j < rs.len(),
                forall|a: int, b: int|
                    0 <= a < b < j ==> (#[trigger] rs@[a]).object_id@ != (#[trigger] rs@[b]).object_id@,
                forall|a: int| 0 <= a < i ==> (#[trigger] rs@[a]).object_id@ != rs@[j as int].object_id@,
            decreases j - i,
        {
            if str_eq(rs[i].object_id.as_str(), rs[j].object_id.as_str()) {
                return false;
            }
            i += 1;
        }
        j += 1;
    }
    true
}

fn live_contains(live: &Vec<CurrentEncryptedObject>, x: &str) -> (r: bool)
    ensures
        r == live_has_object(live@, x@),
{
    let mut i: usize = 0;
    while i < live.len()
        invariant
            i <= live.len(),
            forall|a: int| 0 <= a < i ==> (#[trigger] live@[a]).object_id@ != x@,
        decreases live.len() - i,
    {
        if str_eq(live[i].object_id.as_str(), x) {
            return true;
        }
        i += 1;
    }
    false
}

fn records_contain(rs: &Vec<FolderObjectRevisionSyncRecord>, x: &str) -> (r: bool)
    ensures
        r == records_have_object(rs@, x@),
{
    let mut i: usize = 0;
    while i < rs.len()
        invariant
            i <= rs.len(),
            forall|a: int| 0 <= a < i ==> (#[trigger] rs@[a]).object_id@ != x@,
        decreases rs.len() - i,
    {
        if str_eq(rs[i].object_id.as_str(), x) {
            return true;
        }
        i += 1;
    }
    false
}

fn same_objects(live: &Vec<CurrentEncryptedObject>, rs: &Vec<FolderObjectRevisionSyncRecord>) -> (r:
    bool)
    ensures
        r == forall|x: Seq<char>| live_has_object(live@, x) <==> records_have_object(rs@, x),
{
    let mut i: usize = 0;
    while i < live.len()
        invariant
            i <= live.len(),
            forall|a: int| 0 <= a < i ==> records_have_object(rs@, (#[trigger] live@[a]).object_id@),
        decreases live.len() - i,
    {
        if !records_contain(rs, live[i].object_id.as_str()) {
            assert(live_has_object(live@, live@[i as int].object_id@));
            return false;
        }
        i += 1;
    }
    let mut k: usize = 0;
    while k < rs.len()
        invariant
            k <= rs.len(),
            forall|a: int| 0 <= a < live.len() ==> records_have_object(rs@, (#[trigger] live@[a]).object_id@),
            forall|a: int| 0 <= a < k ==> live_has_object(live@, (#[trigger] rs@[a]).object_id@),
        decreases rs.len() - k,
    {
        if !live_contains(live, rs[k].object_id.as_str()) {
            assert(records_have_object(rs@, rs@[k as int].object_id@));
            return false;
        }
        k += 1;
    }
    assert forall|x: Seq<char>| live_has_object(live@, x) <==> records_have_object(rs@, x) by {
        if live_has_object(live@, x) {
            let a = choose|a: int| 0 <= a < live@.len() && (#[trigger] live@[a]).object_id@ == x;
        }
        if records_have_object(rs@, x) {
            let a = choose|a: int| 0 <= a < rs@.len() && (#[trigger] rs@[a]).object_id@ == x;
        }
    }
    true
}

fn record_advances(o: &CurrentEncryptedObject, r: &FolderObjectRevisionSyncRecord) -> (b: bool)
    ensures
        b == advances(*o, *r),
{
    let base_ok = match r.base_revision {
        Some(b) => b == o.revision,
        None => false,
    };
    str_eq(r.folder_id.as_str(), o.folder_id.as_str()) && base_ok && o.revision < u64::MAX
        && r.revision == o.revision + 1
}

/// Validate that a rotation re-encrypts every live object exactly once, each
/// one revision ahead of its live revision.
pub fn validate_rotation_records(
    live_objects: &Vec<CurrentEncryptedObject>,
    reencrypted_records: &Vec<FolderObjectRevisionSyncRecord>,
) -> (r: Result<(), StoreError>)
    ensures
        rotation_records_outcome(r, live_objects@, reencrypted_records@),
{
    if !live_ids_are_distinct(live_objects) || !record_ids_are_distinct(reencrypted_records)
        || !same_objects(live_objects, reencrypted_records) {
        return Err(broken("folder key rotation must re-encrypt every live object exactly once"));
    }
    let mut i: usize = 0;
    while i < live_objects.len()
        invariant
            i <= live_objects.len(),
            covers_each_live_object_once(live_objects@, reencrypted_records@),
            forall|a: int, b: int|
                0 <= a < i && 0 <= b < reencrypted_records.len() && (#[trigger] live_objects@[a]).object_id@
                    == (#[trigger] reencrypted_records@[b]).object_id@ ==> advances(
                    live_objects@[a],
                    reencrypted_records@[b],
                ),
        decreases live_objects.len() - i,
    {
        let mut j: usize = 0;
        while j < reencrypted_records.len()
            invariant
                i < live_objects.len(),
                j <= reencrypted_records.len(),
                covers_each_live_object_once(live_objects@, reencrypted_records@),
                forall|a: int, b: int|
                    0 <= a < i && 0 <= b < reencrypted_records.len() && (
                    #[trigger] live_objects@[a]).object_id@ == (
                    #[trigger] reencrypted_records@[b]).object_id@ ==> advances(
                        live_objects@[a],
                        reencrypted_records@[b],
                    ),
                forall|b: int|
                    0 <= b < j && live_objects@[i as int].object_id@ == (
                    #[trigger] reencrypted_records@[b]).object_id@ ==> advances(
                        live_objects@[i as int],
                        reencrypted_records@[b],
                    ),
            decreases reencrypted_records.len() - j,
        {
            if str_eq(live_objects[i].object_id.as_str(), reencrypted_records[j].object_id.as_str())
                && !record_advances(&live_objects[i], &reencrypted_records[j]) {
                assert(!each_record_advances(live_objects@, reencrypted_records@));
                return Err(
                    broken("folder key rotation records must advance each live object by one revision"),
                );
            }
            j += 1;
        }
        i += 1;
    }
    Ok(())
}

} // verus!
