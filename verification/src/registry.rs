//! Conservation laws shared by the id-keyed registries.
//!
//! Both the exit node's session registry and the entry node's handler
//! bookkeeping insert a record under a fresh 128-bit id and remove it again
//! at teardown.  The law proved here says that a batch of such lives leaves
//! the registry exactly where it began: nothing stays behind and nothing
//! else is disturbed.

use vstd::prelude::*;

verus! {

/// Insert a record under every id of the batch, in order, drawing each
/// record from `value`.
pub open spec fn insert_all<V>(
    m: Map<u128, V>,
    ids: Seq<u128>,
    value: spec_fn(u128) -> V,
) -> Map<u128, V>
    decreases ids.len(),
{
    if ids.len() == 0 {
        m
    } else {
        insert_all(m.insert(ids.first(), value(ids.first())), ids.drop_first(), value)
    }
}

/// Remove the binding of every id of the batch, in order.
pub open spec fn remove_all<V>(m: Map<u128, V>, ids: Seq<u128>) -> Map<u128, V>
    decreases ids.len(),
{
    if ids.len() == 0 {
        m
    } else {
        remove_all(m.remove(ids.first()), ids.drop_first())
    }
}

/// Removing a key that the batch does not mention commutes with inserting
/// the whole batch.
proof fn lemma_insert_all_remove_commutes<V>(
    m: Map<u128, V>,
    ids: Seq<u128>,
    value: spec_fn(u128) -> V,
    k: u128,
)
    requires
        !ids.contains(k),
    ensures
        insert_all(m, ids, value).remove(k) == insert_all(m.remove(k), ids, value),
    decreases ids.len(),
{
    if ids.len() > 0 {
        let id0 = ids.first();
        let rest = ids.drop_first();
        assert(id0 != k);
        assert(!rest.contains(k)) by {
            assert forall|i: int| 0 <= i < rest.len() implies rest[i] != k by {
                assert(rest[i] == ids[i + 1]);
            }
        }
        lemma_insert_all_remove_commutes(m.insert(id0, value(id0)), rest, value, k);
        assert(m.insert(id0, value(id0)).remove(k) =~= m.remove(k).insert(id0, value(id0)));
    }
}

/// Opening a batch of fresh sessions and then closing every one of them
/// returns the registry to its prior state; in particular a registry that
/// has seen each of its sessions closed is empty again.
pub proof fn lemma_registry_conservation<V>(
    m: Map<u128, V>,
    ids: Seq<u128>,
    value: spec_fn(u128) -> V,
)
    requires
        ids.no_duplicates(),
        forall|i: int| 0 <= i < ids.len() ==> !m.contains_key(#[trigger] ids[i]),
    ensures
        remove_all(insert_all(m, ids, value), ids) == m,
    decreases ids.len(),
{
    if ids.len() > 0 {
        let id0 = ids.first();
        let rest = ids.drop_first();
        assert(!rest.contains(id0)) by {
            assert forall|i: int| 0 <= i < rest.len() implies rest[i] != id0 by {
                assert(rest[i] == ids[i + 1]);
            }
        }
        assert(rest.no_duplicates()) by {
            assert forall|i: int, j: int|
                0 <= i < rest.len() && 0 <= j < rest.len() && i != j implies rest[i] != rest[j] by {
                assert(rest[i] == ids[i + 1]);
                assert(rest[j] == ids[j + 1]);
            }
        }
        lemma_insert_all_remove_commutes(m.insert(id0, value(id0)), rest, value, id0);
        assert(m.insert(id0, value(id0)).remove(id0) =~= m) by {
            assert(!m.contains_key(id0));
        }
        assert forall|i: int| 0 <= i < rest.len() implies !m.contains_key(#[trigger] rest[i]) by {
            assert(rest[i] == ids[i + 1]);
        }
        lemma_registry_conservation(m, rest, value);
        assert(remove_all(insert_all(m, ids, value), ids) == remove_all(
            insert_all(m.insert(id0, value(id0)), rest, value).remove(id0),
            rest,
        ));
    }
}

} // verus!
