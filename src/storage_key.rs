//! Keys under which a sync session and its lists are cached.
//!
//! These strings address stored data: changing them requires migrating it.

use vstd::prelude::*;
use vstd::string::StringExecFns;

verus! {

/// The key prefix of a sync session: `sliding_sync_store::{id}::{user_id}`.
pub open spec fn storage_key_prefix(id: Seq<char>, user_id: Seq<char>) -> Seq<char> {
    "sliding_sync_store::"@ + id + "::"@ + user_id
}

/// The key of a session's own record: `{storage_key}::instance`.
pub open spec fn storage_key_for_sliding_sync(storage_key: Seq<char>) -> Seq<char> {
    storage_key + "::instance"@
}

/// The key of one cached list: `{storage_key}::list::{list_name}`.
pub open spec fn storage_key_for_list(storage_key: Seq<char>, list_name: Seq<char>) -> Seq<char> {
    storage_key + "::list::"@ + list_name
}

/// Builds the key prefix shared by everything a sync session caches.
pub fn format_storage_key_prefix(id: &str, user_id: &str) -> (r: String)
    ensures
        r@ == storage_key_prefix(id@, user_id@),
{
    let mut r = String::from_str("sliding_sync_store::");
    r.append(id);
    r.append("::");
    r.append(user_id);
    r
}

/// Builds the key of a session's own record from its key prefix.
pub fn format_storage_key_for_sliding_sync(storage_key: &str) -> (r: String)
    ensures
        r@ == storage_key_for_sliding_sync(storage_key@),
{
    let mut r = String::from_str(storage_key);
    r.append("::instance");
    r
}

/// Builds the key of one cached list from the session's key prefix.
pub fn format_storage_key_for_sliding_sync_list(storage_key: &str, list_name: &str) -> (r: String)
    ensures
        r@ == storage_key_for_list(storage_key@, list_name@),
{
    let mut r = String::from_str(storage_key);
    r.append("::list::");
    r.append(list_name);
    r
}

} // verus!
