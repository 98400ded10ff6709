//! Queries over one table of the store: the rows of a user, a row by its id,
//! and what is left when such rows are deleted.

use crate::store::{models, Owned, Row};
use vstd::prelude::*;

verus! {

/// The rows that belong to `user_id`, in the table's order.
pub open spec fn owned_by<T: Owned>(rows: Seq<T::V>, user_id: int) -> Seq<T::V>
    decreases rows.len(),
{
    if rows.len() == 0 {
        rows
    } else if T::owner_of(rows.last()) == user_id {
        owned_by::<T>(rows.drop_last(), user_id).push(rows.last())
    } else {
        owned_by::<T>(rows.drop_last(), user_id)
    }
}

/// The table without the rows that belong to `user_id`.
pub open spec fn without_owner<T: Owned>(rows: Seq<T::V>, user_id: int) -> Seq<T::V>
    decreases rows.len(),
{
    if rows.len() == 0 {
        rows
    } else if T::owner_of(rows.last()) == user_id {
        without_owner::<T>(rows.drop_last(), user_id)
    } else {
        without_owner::<T>(rows.drop_last(), user_id).push(rows.last())
    }
}

/// Whether a row has the id `id` and belongs to `user_id`.
pub open spec fn is_row<T: Row + Owned>(row: T::V, id: int, user_id: int) -> bool {
    T::id_of(row) == id && T::owner_of(row) == user_id
}

/// The table without the rows that have the id `id` and belong to `user_id`.
pub open spec fn without_row<T: Row + Owned>(rows: Seq<T::V>, id: int, user_id: int) -> Seq<T::V>
    decreases rows.len(),
{
    if rows.len() == 0 {
        rows
    } else if is_row::<T>(rows.last(), id, user_id) {
        without_row::<T>(rows.drop_last(), id, user_id)
    } else {
        without_row::<T>(rows.drop_last(), id, user_id).push(rows.last())
    }
}

/// The position of the first row that belongs to `user_id`.
pub open spec fn first_owned<T: Owned>(rows: Seq<T::V>, user_id: int) -> Option<int>
    decreases rows.len(),
{
    if rows.len() == 0 {
        None
    } else {
        match first_owned::<T>(rows.drop_last(), user_id) {
            Some(i) => Some(i),
            None => if T::owner_of(rows.last()) == user_id {
                Some(rows.len() - 1)
            } else {
                None
            },
        }
    }
}

/// The position of the first row that has the id `id` and belongs to
/// `user_id`.
pub open spec fn first_row<T: Row + Owned>(rows: Seq<T::V>, id: int, user_id: int) -> Option<int>
    decreases rows.len(),
{
    if rows.len() == 0 {
        None
    } else {
        match first_row::<T>(rows.drop_last(), id, user_id) {
            Some(i) => Some(i),
            None => if is_row::<T>(rows.last(), id, user_id) {
                Some(rows.len() - 1)
            } else {
                None
            },
        }
    }
}

/// What `first_owned` finds: a row of the user with no such row before it.
pub proof fn lemma_first_owned<T: Owned>(rows: Seq<T::V>, user_id: int)
    ensures
        match first_owned::<T>(rows, user_id) {
            Some(i) => {
                &&& 0 <= i < rows.len()
                &&& T::owner_of(rows[i]) == user_id
                &&& forall|j: int| 0 <= j < i ==> T::owner_of(#[trigger] rows[j]) != user_id
            },
            None => forall|j: int| 0 <= j < rows.len() ==> T::owner_of(#[trigger] rows[j]) != user_id,
        },
    decreases rows.len(),
{
    if rows.len() > 0 {
        let front = rows.drop_last();
        lemma_first_owned::<T>(front, user_id);
        assert forall|j: int| 0 <= j < front.len() implies front[j] == rows[j] by {}
        match first_owned::<T>(front, user_id) {
            Some(i) => {
                assert(front[i] == rows[i]);
                assert forall|j: int| 0 <= j < i implies T::owner_of(#[trigger] rows[j])
                    != user_id by {
                    assert(front[j] == rows[j]);
                }
            },
            None => {
                assert forall|j: int| 0 <= j < rows.len() - 1 implies T::owner_of(
                    #[trigger] rows[j],
                ) != user_id by {
                    assert(front[j] == rows[j]);
                }
            },
        }
    }
}

/// What `first_row` finds: a row with the id and the owner, with no such row
/// before it.
pub proof fn lemma_first_row<T: Row + Owned>(rows: Seq<T::V>, id: int, user_id: int)
    ensures
        match first_row::<T>(rows, id, user_id) {
            Some(i) => {
                &&& 0 <= i < rows.len()
                &&& is_row::<T>(rows[i], id, user_id)
                &&& forall|j: int| 0 <= j < i ==> !is_row::<T>(#[trigger] rows[j], id, user_id)
            },
            None => forall|j: int|
                0 <= j < rows.len() ==> !is_row::<T>(#[trigger] rows[j], id, user_id),
        },
    decreases rows.len(),
{
    if rows.len() > 0 {
        let front = rows.drop_last();
        lemma_first_row::<T>(front, id, user_id);
        match first_row::<T>(front, id, user_id) {
            Some(i) => {
                assert(front[i] == rows[i]);
                assert forall|j: int| 0 <= j < i implies !is_row::<T>(
                    #[trigger] rows[j],
                    id,
                    user_id,
                ) by {
                    assert(front[j] == rows[j]);
                }
            },
            None => {
                assert forall|j: int| 0 <= j < rows.len() - 1 implies !is_row::<T>(
                    #[trigger] rows[j],
                    id,
                    user_id,
                ) by {
                    assert(front[j] == rows[j]);
                }
            },
        }
    }
}

/// A match found in a prefix is the match found in the whole table.
pub proof fn lemma_first_owned_prefix<T: Owned>(rows: Seq<T::V>, user_id: int, n: int)
    requires
        0 <= n <= rows.len(),
        first_owned::<T>(rows.take(n), user_id).is_some(),
    ensures
        first_owned::<T>(rows, user_id) == first_owned::<T>(rows.take(n), user_id),
    decreases rows.len() - n,
{
    if n < rows.len() {
        assert(rows.take(n + 1).drop_last() =~= rows.take(n));
        lemma_first_owned_prefix::<T>(rows, user_id, n + 1);
    } else {
        assert(rows.take(n) =~= rows);
    }
}

/// A match found in a prefix is the match found in the whole table.
pub proof fn lemma_first_row_prefix<T: Row + Owned>(rows: Seq<T::V>, id: int, user_id: int, n: int)
    requires
        0 <= n <= rows.len(),
        first_row::<T>(rows.take(n), id, user_id).is_some(),
    ensures
        first_row::<T>(rows, id, user_id) == first_row::<T>(rows.take(n), id, user_id),
    decreases rows.len() - n,
{
    if n < rows.len() {
        assert(rows.take(n + 1).drop_last() =~= rows.take(n));
        lemma_first_row_prefix::<T>(rows, id, user_id, n + 1);
    } else {
        assert(rows.take(n) =~= rows);
    }
}

/// The first row of a user heads the rows of that user; a user without a
/// first row has no rows.
pub proof fn lemma_first_owned_heads<T: Owned>(rows: Seq<T::V>, user_id: int)
    ensures
        match first_owned::<T>(rows, user_id) {
            Some(i) => 0 <= i < rows.len() && owned_by::<T>(rows, user_id).len() > 0
                && owned_by::<T>(rows, user_id)[0] == rows[i],
            None => owned_by::<T>(rows, user_id).len() == 0,
        },
    decreases rows.len(),
{
    if rows.len() > 0 {
        lemma_first_owned_heads::<T>(rows.drop_last(), user_id);
    }
}

/// Every row of `owned_by` belongs to the user and comes from the table.
pub proof fn lemma_owned_by_rows<T: Owned>(rows: Seq<T::V>, user_id: int)
    ensures
        owned_by::<T>(rows, user_id).len() <= rows.len(),
        forall|k: int|
            0 <= k < owned_by::<T>(rows, user_id).len() ==> {
                &&& T::owner_of(#[trigger] owned_by::<T>(rows, user_id)[k]) == user_id
                &&& rows.contains(owned_by::<T>(rows, user_id)[k])
            },
    decreases rows.len(),
{
    if rows.len() > 0 {
        let front = rows.drop_last();
        lemma_owned_by_rows::<T>(front, user_id);
        assert forall|k: int| 0 <= k < owned_by::<T>(rows, user_id).len() implies {
            &&& T::owner_of(#[trigger] owned_by::<T>(rows, user_id)[k]) == user_id
            &&& rows.contains(owned_by::<T>(rows, user_id)[k])
        } by {
            if k < owned_by::<T>(front, user_id).len() {
                let row = owned_by::<T>(front, user_id)[k];
                assert(front.contains(row));
                let at = choose|at: int| 0 <= at < front.len() && front[at] == row;
                assert(rows[at] == row);
            } else {
                assert(rows[rows.len() - 1] == rows.last());
            }
        }
    }
}

/// Finds the first row that belongs to `user_id`.
pub fn find_owned<T: Owned>(rows: &Vec<T>, user_id: i64) -> (found: Option<usize>)
    ensures
        match found {
            Some(i) => first_owned::<T>(models(rows@), user_id as int) == Some(i as int) && i
                < rows@.len(),
            None => first_owned::<T>(models(rows@), user_id as int).is_none(),
        },
{
    let ghost all = models(rows@);
    let mut i: usize = 0;
    assert(all.take(0) =~= Seq::<T::V>::empty());
    while i < rows.len()
        invariant
            i <= rows.len(),
            all == models(rows@),
            first_owned::<T>(all.take(i as int), user_id as int).is_none(),
        decreases rows.len() - i,
    {
        proof {
            assert(all.take(i + 1).drop_last() =~= all.take(i as int));
            assert(all.take(i + 1).last() == rows@[i as int]@);
        }
        if rows[i].owner() == user_id {
            proof {
                lemma_first_owned_prefix::<T>(all, user_id as int, i + 1);
            }
            return Some(i);
        }
        i = i + 1;
    }
    assert(all.take(i as int) =~= all);
    None
}

/// Finds the first row that has the id `id` and belongs to `user_id`.
pub fn find_row<T: Row + Owned>(rows: &Vec<T>, id: i64, user_id: i64) -> (found: Option<usize>)
    ensures
        match found {
            Some(i) => first_row::<T>(models(rows@), id as int, user_id as int) == Some(i as int)
                && i < rows@.len(),
            None => first_row::<T>(models(rows@), id as int, user_id as int).is_none(),
        },
{
    let ghost all = models(rows@);
    let mut i: usize = 0;
    assert(all.take(0) =~= Seq::<T::V>::empty());
    while i < rows.len()
        invariant
            i <= rows.len(),
            all == models(rows@),
            first_row::<T>(all.take(i as int), id as int, user_id as int).is_none(),
        decreases rows.len() - i,
    {
        proof {
            assert(all.take(i + 1).drop_last() =~= all.take(i as int));
            assert(all.take(i + 1).last() == rows@[i as int]@);
        }
        if rows[i].id() == id && rows[i].owner() == user_id {
            proof {
                lemma_first_row_prefix::<T>(all, id as int, user_id as int, i + 1);
            }
            return Some(i);
        }
        i = i + 1;
    }
    assert(all.take(i as int) =~= all);
    None
}

/// Counts the rows that belong to `user_id`.
pub fn count_owned<T: Owned>(rows: &Vec<T>, user_id: i64) -> (count: usize)
    ensures
        count == owned_by::<T>(models(rows@), user_id as int).len(),
{
    let ghost all = models(rows@);
    let mut count: usize = 0;
    let mut i: usize = 0;
    assert(all.take(0) =~= Seq::<T::V>::empty());
    while i < rows.len()
        invariant
            i <= rows.len(),
            all == models(rows@),
            count <= i,
            count == owned_by::<T>(all.take(i as int), user_id as int).len(),
        decreases rows.len() - i,
    {
        proof {
            assert(all.take(i + 1).drop_last() =~= all.take(i as int));
            assert(all.take(i + 1).last() == rows@[i as int]@);
        }
        if rows[i].owner() == user_id {
            count = count + 1;
        }
        i = i + 1;
    }
    assert(all.take(i as int) =~= all);
    count
}

/// Deletes the rows that belong to `user_id`, and says how many there were.
pub fn remove_owned<T: Owned>(rows: &mut Vec<T>, user_id: i64) -> (removed: usize)
    ensures
        models(final(rows)@) == without_owner::<T>(models(old(rows)@), user_id as int),
        removed == old(rows)@.len() - final(rows)@.len(),
{
    let ghost target = without_owner::<T>(models(rows@), user_id as int);
    let ghost before = rows@.len();
    let mut removed: usize = 0;
    let mut i: usize = rows.len();
    proof {
        assert(models(rows@).take(i as int) =~= models(rows@));
        assert(target =~= without_owner::<T>(models(rows@).take(i as int), user_id as int)
            + models(rows@).skip(i as int));
    }
    while i > 0
        invariant
            i <= rows@.len(),
            removed + rows@.len() == before,
            before <= usize::MAX,
            target == without_owner::<T>(models(rows@).take(i as int), user_id as int) + models(
                rows@,
            ).skip(i as int),
        decreases i,
    {
        let ghost cur = models(rows@);
        proof {
            assert(cur.take(i as int).drop_last() =~= cur.take(i - 1));
            assert(cur.take(i as int).last() == rows@[i - 1]@);
        }
        if rows[i - 1].owner() == user_id {
            let _ = rows.remove(i - 1);
            removed = removed + 1;
            proof {
                let next = models(rows@);
                assert(next.take(i - 1) =~= cur.take(i - 1));
                assert(next.skip(i - 1) =~= cur.skip(i as int));
            }
        } else {
            proof {
                assert(cur.skip(i - 1) =~= seq![cur[i - 1]] + cur.skip(i as int));
                assert(without_owner::<T>(cur.take(i as int), user_id as int) + cur.skip(i as int)
                    =~= without_owner::<T>(cur.take(i - 1), user_id as int) + cur.skip(i - 1));
            }
        }
        i = i - 1;
    }
    proof {
        assert(models(rows@).take(0) =~= Seq::<T::V>::empty());
        assert(models(rows@).skip(0) =~= models(rows@));
        assert(target =~= models(rows@));
    }
    removed
}

/// Deletes the rows that have the id `id` and belong to `user_id`, and says
/// how many there were.
pub fn remove_row<T: Row + Owned>(rows: &mut Vec<T>, id: i64, user_id: i64) -> (removed: usize)
    ensures
        models(final(rows)@) == without_row::<T>(models(old(rows)@), id as int, user_id as int),
        removed == old(rows)@.len() - final(rows)@.len(),
        removed > 0 <==> first_row::<T>(models(old(rows)@), id as int, user_id as int).is_some(),
{
    let ghost start = models(rows@);
    let ghost target = without_row::<T>(start, id as int, user_id as int);
    let ghost before = rows@.len();
    let mut removed: usize = 0;
    let mut i: usize = rows.len();
    proof {
        lemma_first_row::<T>(start, id as int, user_id as int);
        assert(start.take(i as int) =~= start);
        assert(start.skip(i as int) =~= Seq::<T::V>::empty());
        assert(target =~= without_row::<T>(start.take(i as int), id as int, user_id as int)
            + start.skip(i as int));
    }
    while i > 0
        invariant
            i <= rows@.len(),
            removed + rows@.len() == before,
            before <= usize::MAX,
            before == start.len(),
            models(rows@).take(i as int) == start.take(i as int),
            removed == 0 ==> forall|j: int|
                i <= j < start.len() ==> !is_row::<T>(#[trigger] start[j], id as int, user_id as int),
            removed > 0 ==> exists|j: int|
                0 <= j < start.len() && is_row::<T>(#[trigger] start[j], id as int, user_id as int),
            target == without_row::<T>(models(rows@).take(i as int), id as int, user_id as int)
                + models(rows@).skip(i as int),
        decreases i,
    {
        let ghost cur = models(rows@);
        proof {
            assert(cur.take(i as int).drop_last() =~= cur.take(i - 1));
            assert(cur.take(i as int).last() == rows@[i - 1]@);
            assert(cur.take(i as int)[i - 1] == start.take(i as int)[i - 1]);
        }
        if rows[i - 1].id() == id && rows[i - 1].owner() == user_id {
            let _ = rows.remove(i - 1);
            removed = removed + 1;
            proof {
                let next = models(rows@);
                assert(next.take(i - 1) =~= cur.take(i - 1));
                assert(next.skip(i - 1) =~= cur.skip(i as int));
                assert(is_row::<T>(start[i - 1], id as int, user_id as int));
                assert(cur.take(i - 1) =~= start.take(i - 1));
            }
        } else {
            proof {
                assert(cur.skip(i - 1) =~= seq![cur[i - 1]] + cur.skip(i as int));
                assert(without_row::<T>(cur.take(i as int), id as int, user_id as int) + cur.skip(
                    i as int,
                ) =~= without_row::<T>(cur.take(i - 1), id as int, user_id as int) + cur.skip(
                    i - 1,
                ));
                assert(cur.take(i - 1) =~= start.take(i - 1));
            }
        }
        i = i - 1;
    }
    proof {
        assert(models(rows@).take(0) =~= Seq::<T::V>::empty());
        assert(models(rows@).skip(0) =~= models(rows@));
        assert(target =~= models(rows@));
    }
    removed
}

} // verus!
