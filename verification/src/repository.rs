//! The product repository: the shared ordered collection and its access
//! discipline.
//!
//! Access to the collection is serialized: the repository is owned by one
//! guard at a time, and every operation runs to completion before another
//! begins. The `poisoned` flag models a mutual-exclusion primitive left
//! unrecoverable after a holder terminated abnormally: once set, every
//! operation fails fast with `InternalFailure` and neither reads nor writes
//! the collection.

use vstd::prelude::*;

use crate::model::ProductRecord;
use crate::model::ProductView;
use crate::model::views_of;

verus! {

/// Some record in the collection carries this id.
pub open spec fn has_id(s: Seq<ProductView>, id: u64) -> bool {
    exists|i: int| 0 <= i < s.len() && s[i].id == id
}

/// Index `i` holds the first record whose id matches.
pub open spec fn is_first_match(s: Seq<ProductView>, id: u64, i: int) -> bool {
    &&& 0 <= i < s.len()
    &&& s[i].id == id
    &&& forall|j: int| 0 <= j < i ==> s[j].id != id
}

/// The index of the first record whose id matches; meaningful only when
/// `has_id` holds (see `lemma_first_match`).
pub open spec fn first_match(s: Seq<ProductView>, id: u64) -> int {
    choose|i: int| is_first_match(s, id, i)
}

/// What deleting by id does to the collection: the first matching record is
/// removed and all later records shift down one position; an absent id leaves
/// the collection unchanged.
pub open spec fn spec_delete(s: Seq<ProductView>, id: u64) -> Seq<ProductView> {
    if has_id(s, id) {
        s.remove(first_match(s, id))
    } else {
        s
    }
}

proof fn lemma_first_match_from_witness(s: Seq<ProductView>, id: u64, w: int)
    requires
        0 <= w < s.len(),
        s[w].id == id,
    ensures
        exists|i: int| is_first_match(s, id, i),
    decreases w,
{
    if forall|j: int| 0 <= j < w ==> s[j].id != id {
        assert(is_first_match(s, id, w));
    } else {
        let j = choose|j: int| 0 <= j < w && s[j].id == id;
        lemma_first_match_from_witness(s, id, j);
    }
}

/// When some record carries the id, `first_match` is a matching index that no
/// earlier matching index precedes, and it is the only such index.
pub proof fn lemma_first_match(s: Seq<ProductView>, id: u64)
    requires
        has_id(s, id),
    ensures
        is_first_match(s, id, first_match(s, id)),
        forall|i: int| is_first_match(s, id, i) ==> i == first_match(s, id),
{
    let w = choose|i: int| 0 <= i < s.len() && s[i].id == id;
    lemma_first_match_from_witness(s, id, w);
    let f = first_match(s, id);
    assert(is_first_match(s, id, f));
    assert forall|i: int| is_first_match(s, id, i) implies i == f by {
        if i < f {
            assert(s[i].id != id);
        } else if f < i {
            assert(s[f].id != id);
        }
    }
}

/// Removing a record commutes with taking views.
pub proof fn lemma_views_of_remove(records: Seq<ProductRecord>, i: int)
    requires
        0 <= i < records.len(),
    ensures
        views_of(records.remove(i)) == views_of(records).remove(i),
{
    assert(views_of(records.remove(i)) =~= views_of(records).remove(i));
}

/// The outcome of reading one record by id.
pub enum GetOutcome {
    Found(ProductRecord),
    NotFound,
    InternalFailure,
}

/// The outcome of deleting one record by id.
pub enum DeleteOutcome {
    Success,
    NotFound,
    InternalFailure,
}

/// The outcome of listing the whole collection.
pub enum ListOutcome {
    Listed(Vec<ProductRecord>),
    InternalFailure,
}

/// The repository owning the product collection. Callers see the collection
/// only through copies or removal, never by reference.
pub struct ProductRepository {
    records: Vec<ProductRecord>,
    poisoned: bool,
}

impl View for ProductRepository {
    type V = Seq<ProductView>;

    /// The repository's value is the ordered sequence of its records' views.
    closed spec fn view(&self) -> Seq<ProductView> {
        views_of(self.records@)
    }
}

impl ProductRepository {
    /// The health flag: true once the guarded access is unrecoverable.
    pub closed spec fn is_poisoned(&self) -> bool {
        self.poisoned
    }

    /// A repository created empty and healthy.
    pub fn new() -> (r: Self)
        ensures
            r@ == Seq::<ProductView>::empty(),
            !r.is_poisoned(),
    {
        let r = ProductRepository { records: Vec::new(), poisoned: false };
        proof {
            assert(r@ =~= Seq::<ProductView>::empty());
        }
        r
    }

    /// A repository pre-seeded with records, kept in the given order.
    pub fn from_records(records: Vec<ProductRecord>) -> (r: Self)
        ensures
            r@ == views_of(records@),
            !r.is_poisoned(),
    {
        ProductRepository { records, poisoned: false }
    }

    /// The catastrophic-failure path: marks the guarded access unrecoverable.
    /// The records themselves are not touched, but no operation will expose
    /// them from now on.
    pub fn poison(&mut self)
        ensures
            final(self).is_poisoned(),
            final(self)@ == old(self)@,
    {
        self.poisoned = true;
    }

    /// Copies the entire collection in current order. Fails exactly when the
    /// repository is poisoned, and then exposes no data at all.
    pub fn list_all(&self) -> (r: ListOutcome)
        ensures
            self.is_poisoned() <==> r is InternalFailure,
            r matches ListOutcome::Listed(v) ==> views_of(v@) == self@,
    {
        if self.poisoned {
            return ListOutcome::InternalFailure;
        }
        let n = self.records.len();
        let mut out: Vec<ProductRecord> = Vec::new();
        let mut k: usize = 0;
        while k < n
            invariant
                n == self.records.len(),
                k <= n,
                out@.len() == k,
                forall|j: int| 0 <= j < k ==> out@[j] == self.records@[j],
            decreases n - k,
        {
            out.push(self.records[k].clone());
            k += 1;
        }
        proof {
            assert(views_of(out@) =~= self@);
        }
        ListOutcome::Listed(out)
    }

    /// Returns a copy of the first record whose id matches, `NotFound` when no
    /// record matches, and `InternalFailure` exactly when the repository is
    /// poisoned.
    pub fn get_by_id(&self, id: u64) -> (r: GetOutcome)
        ensures
            self.is_poisoned() <==> r is InternalFailure,
            r matches GetOutcome::Found(p) ==> {
                &&& has_id(self@, id)
                &&& is_first_match(self@, id, first_match(self@, id))
                &&& p@ == self@[first_match(self@, id)]
            },
            !self.is_poisoned() ==> (r is NotFound <==> !has_id(self@, id)),
    {
        if self.poisoned {
            return GetOutcome::InternalFailure;
        }
        let n = self.records.len();
        let mut k: usize = 0;
        while k < n
            invariant
                !self.poisoned,
                n == self.records.len(),
                k <= n,
                forall|j: int| 0 <= j < k ==> self@[j].id != id,
            decreases n - k,
        {
            if self.records[k].id == id {
                proof {
                    assert(is_first_match(self@, id, k as int));
                    lemma_first_match(self@, id);
                }
                return GetOutcome::Found(self.records[k].clone());
            }
            k += 1;
        }
        GetOutcome::NotFound
    }

    /// Removes the first record whose id matches, shifting later records down
    /// one position and reordering nothing else. `Success` exactly when a
    /// record matched, `NotFound` when none did, `InternalFailure` exactly
    /// when the repository is poisoned; a poisoned repository is left
    /// untouched.
    pub fn delete_by_id(&mut self, id: u64) -> (r: DeleteOutcome)
        ensures
            final(self).is_poisoned() == old(self).is_poisoned(),
            old(self).is_poisoned() <==> r is InternalFailure,
            old(self).is_poisoned() ==> final(self)@ == old(self)@,
            !old(self).is_poisoned() ==> final(self)@ == spec_delete(old(self)@, id),
            !old(self).is_poisoned() ==> (r is Success <==> has_id(old(self)@, id)),
    {
        if self.poisoned {
            return DeleteOutcome::InternalFailure;
        }
        let n = self.records.len();
        let mut k: usize = 0;
        while k < n
            invariant
                *self == *old(self),
                !self.poisoned,
                n == self.records.len(),
                k <= n,
                forall|j: int| 0 <= j < k ==> self@[j].id != id,
            decreases n - k,
        {
            if self.records[k].id == id {
                proof {
                    assert(is_first_match(self@, id, k as int));
                    lemma_first_match(self@, id);
                    lemma_views_of_remove(self.records@, k as int);
                }
                self.records.remove(k);
                return DeleteOutcome::Success;
            }
            k += 1;
        }
        DeleteOutcome::NotFound
    }
}

} // verus!
