//! Laws of the repository's delete semantics, stated over the collection
//! model that the repository operations' contracts use.

use vstd::prelude::*;

use crate::model::ProductView;
use crate::repository::first_match;
use crate::repository::has_id;
use crate::repository::is_first_match;
use crate::repository::lemma_first_match;
use crate::repository::spec_delete;

verus! {

/// At most one record in the collection carries this id.
pub open spec fn at_most_one_with_id(s: Seq<ProductView>, id: u64) -> bool {
    forall|i: int, j: int|
        0 <= i < s.len() && 0 <= j < s.len() && s[i].id == id && s[j].id == id ==> i == j
}

/// No two of these ids are equal.
pub open spec fn all_distinct(ids: Seq<u64>) -> bool {
    forall|i: int, j: int| 0 <= i < j < ids.len() ==> ids[i] != ids[j]
}

/// The collection after deleting by each of these ids in turn, left to right.
pub open spec fn delete_each(s: Seq<ProductView>, ids: Seq<u64>) -> Seq<ProductView>
    decreases ids.len(),
{
    if ids.len() == 0 {
        s
    } else {
        delete_each(spec_delete(s, ids[0]), ids.subrange(1, ids.len() as int))
    }
}

/// How many of these ids have a matching record in the collection.
pub open spec fn count_present(s: Seq<ProductView>, ids: Seq<u64>) -> int
    decreases ids.len(),
{
    if ids.len() == 0 {
        0
    } else {
        (if has_id(s, ids[0]) {
            1int
        } else {
            0int
        }) + count_present(s, ids.subrange(1, ids.len() as int))
    }
}

/// Order preservation: deleting by id removes only the first matching record;
/// records before it keep their positions and records after it shift down
/// exactly one position, so the remaining records keep their relative order.
/// An absent id changes nothing.
pub proof fn lemma_delete_preserves_order(s: Seq<ProductView>, id: u64)
    ensures
        !has_id(s, id) ==> spec_delete(s, id) == s,
        has_id(s, id) ==> {
            let i = first_match(s, id);
            &&& is_first_match(s, id, i)
            &&& spec_delete(s, id).len() == s.len() - 1
            &&& forall|j: int| 0 <= j < i ==> spec_delete(s, id)[j] == s[j]
            &&& forall|j: int| i <= j < s.len() - 1 ==> spec_delete(s, id)[j] == s[j + 1]
        },
{
    if has_id(s, id) {
        lemma_first_match(s, id);
    }
}

/// Idempotence of failure: when exactly one record carries the id, deleting
/// it succeeds and shrinks the collection by exactly one, and a second delete
/// of the same id finds nothing and changes nothing.
pub proof fn lemma_delete_twice(s: Seq<ProductView>, id: u64)
    requires
        has_id(s, id),
        at_most_one_with_id(s, id),
    ensures
        spec_delete(s, id).len() == s.len() - 1,
        !has_id(spec_delete(s, id), id),
        spec_delete(spec_delete(s, id), id) == spec_delete(s, id),
{
    lemma_delete_preserves_order(s, id);
    let i = first_match(s, id);
    let t = spec_delete(s, id);
    assert forall|j: int| 0 <= j < t.len() implies t[j].id != id by {
        if j < i {
            assert(t[j] == s[j]);
        } else {
            assert(t[j] == s[j + 1]);
        }
    }
}

/// Deleting by one id neither removes nor adds records carrying another id.
pub proof fn lemma_delete_preserves_other_ids(s: Seq<ProductView>, a: u64, b: u64)
    requires
        a != b,
    ensures
        has_id(spec_delete(s, a), b) == has_id(s, b),
{
    if has_id(s, a) {
        lemma_delete_preserves_order(s, a);
        let i = first_match(s, a);
        let t = spec_delete(s, a);
        if has_id(s, b) {
            let w = choose|k: int| 0 <= k < s.len() && s[k].id == b;
            if w < i {
                assert(t[w] == s[w]);
                assert(has_id(t, b));
            } else {
                assert(t[w - 1] == s[w]);
                assert(has_id(t, b));
            }
        }
        if has_id(t, b) {
            let w = choose|k: int| 0 <= k < t.len() && t[k].id == b;
            if w < i {
                assert(t[w] == s[w]);
                assert(has_id(s, b));
            } else {
                assert(t[w] == s[w + 1]);
                assert(has_id(s, b));
            }
        }
    }
}

proof fn lemma_count_present_delete(s: Seq<ProductView>, a: u64, ids: Seq<u64>)
    requires
        forall|k: int| 0 <= k < ids.len() ==> ids[k] != a,
    ensures
        count_present(spec_delete(s, a), ids) == count_present(s, ids),
    decreases ids.len(),
{
    if ids.len() > 0 {
        lemma_delete_preserves_other_ids(s, a, ids[0]);
        let rest = ids.subrange(1, ids.len() as int);
        lemma_count_present_delete(s, a, rest);
    }
}

/// Serialized concurrent deletes: deleting by a batch of distinct ids, in
/// whatever order the lock grants them, shrinks the collection by exactly the
/// number of those ids that were present at the start, and each delete finds
/// its id exactly when that id was present at the start — so each succeeds
/// exactly once.
pub proof fn lemma_distinct_deletes(s: Seq<ProductView>, ids: Seq<u64>)
    requires
        all_distinct(ids),
    ensures
        delete_each(s, ids).len() == s.len() - count_present(s, ids),
        forall|k: int| 0 <= k < ids.len() ==>
            has_id(delete_each(s, #[trigger] ids.subrange(0, k)), ids[k]) == has_id(s, ids[k]),
    decreases ids.len(),
{
    if ids.len() > 0 {
        let a = ids[0];
        let s1 = spec_delete(s, a);
        let rest = ids.subrange(1, ids.len() as int);
        lemma_delete_preserves_order(s, a);
        lemma_count_present_delete(s, a, rest);
        lemma_distinct_deletes(s1, rest);
        assert(delete_each(s, ids) == delete_each(s1, rest));
        assert(count_present(s, ids) == (if has_id(s, a) {
            1int
        } else {
            0int
        }) + count_present(s, rest));
        assert forall|k: int| 0 <= k < ids.len() implies
            has_id(delete_each(s, #[trigger] ids.subrange(0, k)), ids[k]) == has_id(s, ids[k]) by {
            if k == 0 {
                assert(ids.subrange(0, 0) =~= Seq::<u64>::empty());
                assert(delete_each(s, ids.subrange(0, 0)) == s);
            } else {
                let p = ids.subrange(0, k);
                assert(p.len() == k);
                assert(p[0] == a);
                assert(p.subrange(1, k) =~= rest.subrange(0, k - 1));
                assert(delete_each(s, p) == delete_each(s1, rest.subrange(0, k - 1)));
                assert(rest[k - 1] == ids[k]);
                assert(has_id(delete_each(s1, rest.subrange(0, k - 1)), rest[k - 1]) == has_id(
                    s1,
                    rest[k - 1],
                ));
                lemma_delete_preserves_other_ids(s, a, ids[k]);
            }
        }
    }
}

} // verus!
