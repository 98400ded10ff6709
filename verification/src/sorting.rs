//! Sorting rows for display: by insertion, for any order that is transitive.

use crate::store::models;
use vstd::prelude::*;
use vstd::seq_lib::*;

verus! {

/// A row with a place in an order.
pub trait Sortable: View + Sized {
    /// Whether `a` must stand before `b`.
    spec fn before(a: Self::V, b: Self::V) -> bool;

    /// The order is transitive.
    proof fn lemma_before_transitive(a: Self::V, b: Self::V, c: Self::V)
        requires
            Self::before(a, b),
            Self::before(b, c),
        ensures
            Self::before(a, c),
    ;

    /// No row must stand before itself.
    proof fn lemma_before_irreflexive(a: Self::V)
        ensures
            !Self::before(a, a),
    ;

    /// Whether this row must stand before `other`.
    fn is_before(&self, other: &Self) -> (before: bool)
        ensures
            before == Self::before(self@, other@),
    ;
}

/// Whether no row stands after a row that it must stand before.
pub open spec fn is_sorted<T: Sortable>(rows: Seq<T::V>) -> bool {
    forall|i: int, j: int| 0 <= i < j < rows.len() ==> !T::before(#[trigger] rows[j], #[trigger] rows[i])
}

/// Puts a row into a sorted list, behind the rows that it need not stand
/// before.
pub fn insert_sorted<T: Sortable>(sorted: &mut Vec<T>, item: T)
    requires
        is_sorted::<T>(models(old(sorted)@)),
    ensures
        is_sorted::<T>(models(final(sorted)@)),
        models(final(sorted)@).to_multiset() == models(old(sorted)@).to_multiset().insert(item@),
        final(sorted)@.len() == old(sorted)@.len() + 1,
{
    let ghost before = models(sorted@);
    let mut at: usize = 0;
    let mut found: bool = false;
    while at < sorted.len() && !found
        invariant
            at <= sorted@.len(),
            before == models(sorted@),
            forall|i: int| 0 <= i < at ==> !T::before(item@, #[trigger] before[i]),
            found ==> at < sorted@.len() && T::before(item@, before[at as int]),
        decreases sorted@.len() - at + if found { 0int } else { 1int },
    {
        if item.is_before(&sorted[at]) {
            found = true;
        } else {
            at = at + 1;
        }
    }
    sorted.insert(at, item);
    proof {
        let after = models(sorted@);
        assert(after =~= before.insert(at as int, item@));
        before.insert_ensures(at as int, item@);
        to_multiset_insert(before, at as int, item@);
        assert forall|i: int, j: int| 0 <= i < j < after.len() implies !T::before(
            #[trigger] after[j],
            #[trigger] after[i],
        ) by {
            if j == at {
                assert(after[i] == before[i]);
            } else if i == at {
                assert(after[j] == before[j - 1]);
                assert(found);
                if T::before(after[j], item@) {
                    T::lemma_before_transitive(after[j], item@, before[at as int]);
                    T::lemma_before_irreflexive(before[at as int]);
                    if j - 1 > at {
                        assert(!T::before(before[j - 1], before[at as int]));
                    }
                }
            } else {
                let x = if i < at {
                    i
                } else {
                    i - 1
                };
                let y = if j < at {
                    j
                } else {
                    j - 1
                };
                assert(after[i] == before[x]);
                assert(after[j] == before[y]);
            }
        }
    }
}

/// Sorts rows: the result holds the same rows, none after a row that it must
/// stand before.
pub fn sort<T: Sortable>(rows: Vec<T>) -> (sorted: Vec<T>)
    ensures
        is_sorted::<T>(models(sorted@)),
        models(sorted@).to_multiset() == models(rows@).to_multiset(),
        sorted@.len() == rows@.len(),
{
    let ghost all = models(rows@);
    let mut rest = rows;
    let mut sorted: Vec<T> = Vec::new();
    proof {
        assert(models(sorted@) =~= Seq::<T::V>::empty());
        assert(models(sorted@).to_multiset().add(models(rest@).to_multiset()) =~= all.to_multiset()) by {
            broadcast use group_to_multiset_ensures;

        }
    }
    while rest.len() > 0
        invariant
            is_sorted::<T>(models(sorted@)),
            models(sorted@).to_multiset().add(models(rest@).to_multiset()) == all.to_multiset(),
            sorted@.len() + rest@.len() == all.len(),
        decreases rest@.len(),
    {
        let ghost before = models(rest@);
        let ghost done = models(sorted@);
        let item = rest.pop().unwrap();
        proof {
            assert(models(rest@) =~= before.drop_last());
            assert(before =~= models(rest@).push(item@));
            to_multiset_build(models(rest@), item@);
        }
        insert_sorted(&mut sorted, item);
        proof {
            assert(models(sorted@).to_multiset().add(models(rest@).to_multiset()) =~= done.to_multiset().add(
                before.to_multiset(),
            ));
        }
    }
    proof {
        assert(models(rest@) =~= Seq::<T::V>::empty());
        assert(models(rest@).to_multiset() =~= vstd::multiset::Multiset::<T::V>::empty()) by {
            broadcast use group_to_multiset_ensures;

        }
        assert(models(sorted@).to_multiset().add(models(rest@).to_multiset()) =~= models(
            sorted@,
        ).to_multiset());
    }
    sorted
}

} // verus!
