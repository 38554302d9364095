//! The table from window ids to windows: a hash map of `std` that hashes
//! with `rustc_hash::FxBuildHasher`.
//!
//! The contracts of the standard hash map are stated for hashers that are
//! known to be deterministic. Nothing here proves that of `FxBuildHasher`, so
//! each method the store calls is wrapped with the contract that the
//! documentation of `std::collections::HashMap` gives it.

use std::collections::HashMap;
use vstd::prelude::*;
use rustc_hash::FxBuildHasher;
use crate::ids::WinID;
use crate::window::{Window, WindowKind};

verus! {

/// What the store keeps for an id: the window and its kind.
pub type Entry = (Window, WindowKind);

/// The windows of the store by their ids.
pub type WindowTable = HashMap<WinID, Entry, FxBuildHasher>;

/// `HashMap::with_hasher(FxBuildHasher)`: a new map holds nothing.
#[verifier::external_body]
pub(crate) fn table_new() -> (fresh: WindowTable)
    ensures
        fresh@.dom() == Set::<WinID>::empty(),
{
    HashMap::with_hasher(FxBuildHasher)
}

/// `HashMap::get`: the entry under `id`, if there is one.
#[verifier::external_body]
pub(crate) fn table_get(table: &WindowTable, id: WinID) -> (entry: Option<&Entry>)
    ensures
        match entry {
            Some(e) => table@.contains_key(id) && *e == table@[id],
            None => !table@.contains_key(id),
        },
{
    table.get(&id)
}

/// `HashMap::get_mut`: the entry under `id`, if there is one, to be changed
/// in place. What is written through the reference is afterwards the entry
/// under `id`, and no other entry changes.
#[verifier::external_body]
pub(crate) fn table_get_mut(table: &mut WindowTable, id: WinID) -> (entry: Option<&mut Entry>)
    ensures
        match entry {
            Some(e) => {
                &&& old(table)@.contains_key(id)
                &&& *e == old(table)@[id]
                &&& final(table)@ == old(table)@.insert(id, *final(e))
            },
            None => !old(table)@.contains_key(id) && final(table)@ == old(table)@,
        },
{
    table.get_mut(&id)
}

/// `HashMap::insert`: afterwards `entry` stands under `id`; returns what
/// stood there before.
#[verifier::external_body]
pub(crate) fn table_insert(table: &mut WindowTable, id: WinID, entry: Entry) -> (before: Option<Entry>)
    ensures
        final(table)@ == old(table)@.insert(id, entry),
        match before {
            Some(e) => old(table)@.contains_key(id) && e == old(table)@[id],
            None => !old(table)@.contains_key(id),
        },
{
    table.insert(id, entry)
}

/// `HashMap::remove`: afterwards nothing stands under `id`; returns what
/// stood there before.
#[verifier::external_body]
pub(crate) fn table_remove(table: &mut WindowTable, id: WinID) -> (before: Option<Entry>)
    ensures
        final(table)@ == old(table)@.remove(id),
        match before {
            Some(e) => old(table)@.contains_key(id) && e == old(table)@[id],
            None => !old(table)@.contains_key(id),
        },
{
    table.remove(&id)
}

} // verus!
