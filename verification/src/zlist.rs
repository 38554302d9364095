//! The Z-ordered id lists: what the store relies on from `indexmap` and
//! `rustc_hash`.
//!
//! A Z-list is an `IndexSet` of window ids hashed with `FxBuildHasher`. The
//! verifier cannot look inside it, so its contents are named by
//! [`zlist_ids`] and every method the store calls is wrapped here with a
//! contract taken from the documentation of `indexmap`. None of these
//! contracts is proved.

use vstd::prelude::*;
use indexmap::IndexSet;
use rustc_hash::FxBuildHasher;

verus! {

/// `rustc_hash::FxBuildHasher`, carried through as an opaque value.
#[verifier::external_type_specification]
#[verifier::external_body]
pub struct ExFxBuildHasher(FxBuildHasher);

/// `indexmap::IndexSet`, carried through as an opaque value.
#[verifier::external_type_specification]
#[verifier::external_body]
#[verifier::reject_recursive_types(T)]
#[verifier::reject_recursive_types(S)]
pub struct ExIndexSet<T, S>(IndexSet<T, S>);

/// A Z-ordered list of window ids.
pub type ZList = IndexSet<u16, FxBuildHasher>;

/// The ids that a Z-list holds, in insertion order: index 0 is the
/// bottom-most window, the last index the top-most.
pub uninterp spec fn zlist_ids(list: IndexSet<u16, FxBuildHasher>) -> Seq<u16>;

/// `IndexSet::with_hasher(FxBuildHasher)`: a new set holds nothing.
#[verifier::external_body]
pub(crate) fn zlist_new() -> (list: ZList)
    ensures
        zlist_ids(list) == Seq::<u16>::empty(),
{
    IndexSet::with_hasher(FxBuildHasher)
}

/// `IndexSet::len`: the number of ids held.
#[verifier::external_body]
pub(crate) fn zlist_len(list: &ZList) -> (n: usize)
    ensures
        n == zlist_ids(*list).len(),
{
    list.len()
}

/// `IndexSet::get_index`: the id at position `index` of the insertion order,
/// or nothing when `index` is not below the length.
#[verifier::external_body]
pub(crate) fn zlist_get_index(list: &ZList, index: usize) -> (id: Option<u16>)
    ensures
        id == if index < zlist_ids(*list).len() {
            Some(zlist_ids(*list)[index as int])
        } else {
            None
        },
{
    list.get_index(index).copied()
}

/// `IndexSet::insert`: an id that is already held stays where it is and the
/// call returns `false`; a new id goes to the end and the call returns
/// `true`.
#[verifier::external_body]
pub(crate) fn zlist_insert(list: &mut ZList, id: u16) -> (fresh: bool)
    ensures
        fresh == !zlist_ids(*old(list)).contains(id),
        zlist_ids(*final(list)) == if zlist_ids(*old(list)).contains(id) {
            zlist_ids(*old(list))
        } else {
            zlist_ids(*old(list)).push(id)
        },
{
    list.insert(id)
}

/// `IndexSet::shift_remove`: returns whether `id` was held; the other ids
/// remain, in the order they had.
#[verifier::external_body]
pub(crate) fn zlist_shift_remove(list: &mut ZList, id: u16) -> (found: bool)
    ensures
        found == zlist_ids(*old(list)).contains(id),
        zlist_ids(*final(list)) == zlist_without(zlist_ids(*old(list)), id),
{
    list.shift_remove(&id)
}

/// The ids of `ids` other than `id`, in the same order.
pub open spec fn zlist_without(ids: Seq<u16>, id: u16) -> Seq<u16>
    decreases ids.len(),
{
    if ids.len() == 0 {
        ids
    } else if ids.last() == id {
        zlist_without(ids.drop_last(), id)
    } else {
        zlist_without(ids.drop_last(), id).push(ids.last())
    }
}

/// Taking `id` out of a list leaves exactly the other ids, and leaves a list
/// without `id` as it is.
pub proof fn lemma_without_members(ids: Seq<u16>, id: u16)
    ensures
        forall|other: u16|
            zlist_without(ids, id).contains(other) <==> (ids.contains(other) && other != id),
        zlist_without(ids, id).len() <= ids.len(),
        !ids.contains(id) ==> zlist_without(ids, id) == ids,
    decreases ids.len(),
{
    let out = zlist_without(ids, id);
    if ids.len() == 0 {
    } else {
        let rest = ids.drop_last();
        let last = ids.last();
        let rest_out = zlist_without(rest, id);
        lemma_without_members(rest, id);
        assert forall|other: u16| out.contains(other) <==> (ids.contains(other) && other != id) by {
            if ids.contains(other) && other != id {
                let i = choose|i: int| 0 <= i < ids.len() && ids[i] == other;
                if i < rest.len() {
                    assert(rest[i] == other);
                    assert(rest.contains(other));
                    assert(rest_out.contains(other));
                    let j = choose|j: int| 0 <= j < rest_out.len() && rest_out[j] == other;
                    assert(out[j] == other);
                } else {
                    assert(last == other);
                    assert(out[out.len() - 1] == other);
                }
            }
            if out.contains(other) {
                let j = choose|j: int| 0 <= j < out.len() && out[j] == other;
                if j < rest_out.len() {
                    assert(rest_out[j] == other);
                    assert(rest_out.contains(other));
                    assert(rest.contains(other));
                    let i = choose|i: int| 0 <= i < rest.len() && rest[i] == other;
                    assert(ids[i] == other);
                } else {
                    assert(other == last);
                    assert(ids[ids.len() - 1] == other);
                }
            }
        }
        if !ids.contains(id) {
            assert(last != id) by {
                assert(ids[ids.len() - 1] == last);
            }
            assert(!rest.contains(id)) by {
                if rest.contains(id) {
                    let i = choose|i: int| 0 <= i < rest.len() && rest[i] == id;
                    assert(ids[i] == id);
                }
            }
            assert(out =~= ids);
        }
    }
}

/// Taking an id out of a list in which no id stands twice leaves such a
/// list.
pub proof fn lemma_without_no_duplicates(ids: Seq<u16>, id: u16)
    requires
        ids.no_duplicates(),
    ensures
        zlist_without(ids, id).no_duplicates(),
    decreases ids.len(),
{
    let out = zlist_without(ids, id);
    if ids.len() > 0 {
        let rest = ids.drop_last();
        let last = ids.last();
        let rest_out = zlist_without(rest, id);
        assert(rest.no_duplicates());
        lemma_without_no_duplicates(rest, id);
        lemma_without_members(rest, id);
        if last != id {
            assert(!rest.contains(last)) by {
                if rest.contains(last) {
                    let i = choose|i: int| 0 <= i < rest.len() && rest[i] == last;
                    assert(ids[i] == ids[ids.len() - 1]);
                }
            }
            assert(!rest_out.contains(last));
            assert forall|i: int, j: int| 0 <= i < out.len() && 0 <= j < out.len() && i != j implies out[i]
                != out[j] by {
                if i < rest_out.len() && j < rest_out.len() {
                    assert(rest_out[i] != rest_out[j]);
                } else if i < rest_out.len() {
                    assert(rest_out.contains(rest_out[i]));
                } else {
                    assert(rest_out.contains(rest_out[j]));
                }
            }
        }
    }
}

/// An id that a list does not hold yet may go to its end without standing
/// twice, and the list then holds it and what it held.
pub proof fn lemma_push_fresh(ids: Seq<u16>, id: u16)
    requires
        ids.no_duplicates(),
        !ids.contains(id),
    ensures
        ids.push(id).no_duplicates(),
        forall|other: u16| ids.push(id).contains(other) <==> (ids.contains(other) || other == id),
{
    let out = ids.push(id);
    assert forall|i: int, j: int| 0 <= i < out.len() && 0 <= j < out.len() && i != j implies out[i]
        != out[j] by {
        if i < ids.len() && j < ids.len() {
        } else if i < ids.len() {
            assert(ids.contains(ids[i]));
        } else {
            assert(ids.contains(ids[j]));
        }
    }
    assert forall|other: u16| out.contains(other) <==> (ids.contains(other) || other == id) by {
        if ids.contains(other) {
            let i = choose|i: int| 0 <= i < ids.len() && ids[i] == other;
            assert(out[i] == other);
        }
        if other == id {
            assert(out[out.len() - 1] == other);
        }
        if out.contains(other) {
            let j = choose|j: int| 0 <= j < out.len() && out[j] == other;
            if j < ids.len() {
                assert(ids[j] == other);
            }
        }
    }
}

} // verus!
