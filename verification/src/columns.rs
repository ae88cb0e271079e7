//! Stored JSON columns that hold lists of strings: Folder id scopes,
//! delegation scopes and NIP-05 relay lists.
use vstd::prelude::*;

use crate::deletion::{encode_string_list, json_string_list, json_text_of_strings, parse_string_list};
use crate::error::StoreError;
use crate::model::texts_view;

verus! {

/// The error is `Database` carrying exactly this message.
pub open spec fn is_database(e: StoreError, message: Seq<char>) -> bool {
    e matches StoreError::Database { message: m } && m@ == message
}

/// The column's strings when it holds a JSON array of strings; otherwise
/// the error `column_error` makes of the parser's message.
pub open spec fn column_outcome(
    r: Result<Vec<String>, StoreError>,
    value: Seq<char>,
    column_error: spec_fn(StoreError, Seq<char>) -> bool,
) -> bool {
    match json_string_list(value) {
        Ok(items) => r matches Ok(v) && texts_view(v@) == items,
        Err(m) => r matches Err(e) && column_error(e, m),
    }
}

/// A stored Folder id list (an invitation's initial Folder access or
/// bootstrap scope). A column that does not hold a JSON array of strings
/// fails as a database error carrying the parser's message.
pub fn stored_folder_ids(value: &str) -> (r: Result<Vec<String>, StoreError>)
    ensures
        column_outcome(r, value@, |e: StoreError, m: Seq<char>| is_database(e, m)),
{
    match parse_string_list(value) {
        Ok(ids) => Ok(ids),
        Err(message) => Err(StoreError::Database { message }),
    }
}

/// The reason a stored delegation scope that does not parse is reported with.
pub open spec fn delegation_scope_reason(m: Seq<char>) -> Seq<char> {
    "stored delegation scope is invalid: "@ + m
}

/// The Folder ids of a stored Brain email access delegation's audit scope.
/// A scope that does not parse is a broken invariant naming the parser's
/// message.
pub fn delegation_scope_folder_ids(scope_json: &str) -> (r: Result<Vec<String>, StoreError>)
    ensures
        column_outcome(
            r,
            scope_json@,
            |e: StoreError, m: Seq<char>|
                e matches StoreError::BrokenInvariant { reason } && reason@ == delegation_scope_reason(m),
        ),
{
    match parse_string_list(scope_json) {
        Ok(ids) => Ok(ids),
        Err(message) => {
            let mut reason = String::new();
            proof {
                reveal_strlit("stored delegation scope is invalid: ");
            }
            reason.append("stored delegation scope is invalid: ");
            reason.append(message.as_str());
            Err(StoreError::BrokenInvariant { reason })
        },
    }
}

/// An identity alias's NIP-05 relays from their stored column. A column that
/// does not parse fails as a database error carrying the parser's message.
pub fn nip05_relays_from_json(relays_json: &str) -> (r: Result<Vec<String>, StoreError>)
    ensures
        column_outcome(r, relays_json@, |e: StoreError, m: Seq<char>| is_database(e, m)),
{
    match parse_string_list(relays_json) {
        Ok(relays) => Ok(relays),
        Err(message) => Err(StoreError::Database { message }),
    }
}

/// The reason relays that cannot be encoded are reported with.
pub open spec fn relays_reason(m: Seq<char>) -> Seq<char> {
    "identity alias relays did not serialize: "@ + m
}

/// The stored column text of an identity alias's NIP-05 relays; an encoding
/// failure is an invalid record naming the encoder's message.
pub fn nip05_relays_json(relays: &Vec<String>) -> (r: Result<String, StoreError>)
    ensures
        match json_text_of_strings(texts_view(relays@)) {
            Ok(s) => r matches Ok(t) && t@ == s,
            Err(m) => r matches Err(StoreError::InvalidRecord { reason }) && reason@ == relays_reason(m),
        },
{
    match encode_string_list(relays) {
        Ok(s) => Ok(s),
        Err(message) => {
            let mut reason = String::new();
            proof {
                reveal_strlit("identity alias relays did not serialize: ");
            }
            reason.append("identity alias relays did not serialize: ");
            reason.append(message.as_str());
            Err(StoreError::InvalidRecord { reason })
        },
    }
}

} // verus!
