//! Looking accounts up: by id, and by the unique username.

use crate::codec::{
    lemma_bytes_before_irreflexive, lemma_bytes_before_transitive, sorts_before, text_before,
    text_eq,
};
use crate::sorting::{is_sorted, sort, Sortable};
use crate::store::{models, Store, StoreModel, User, UserModel};
use crate::table::{find_owned, first_owned};
use vstd::prelude::*;
use vstd::utf8::*;

verus! {

/// The position of the first user called `username`.
pub open spec fn first_named(users: Seq<UserModel>, username: Seq<char>) -> Option<int>
    decreases users.len(),
{
    if users.len() == 0 {
        None
    } else {
        match first_named(users.drop_last(), username) {
            Some(i) => Some(i),
            None => if users.last().username == username {
                Some(users.len() - 1)
            } else {
                None
            },
        }
    }
}

/// What `first_named` finds: a user of that name with no such user before.
pub proof fn lemma_first_named(users: Seq<UserModel>, username: Seq<char>)
    ensures
        match first_named(users, username) {
            Some(i) => {
                &&& 0 <= i < users.len()
                &&& users[i].username == username
                &&& forall|j: int| 0 <= j < i ==> (#[trigger] users[j]).username != username
            },
            None => forall|j: int| 0 <= j < users.len() ==> (#[trigger] users[j]).username != username,
        },
    decreases users.len(),
{
    if users.len() > 0 {
        let front = users.drop_last();
        lemma_first_named(front, username);
        match first_named(front, username) {
            Some(i) => {
                assert(front[i] == users[i]);
                assert forall|j: int| 0 <= j < i implies (#[trigger] users[j]).username
                    != username by {
                    assert(front[j] == users[j]);
                }
            },
            None => {
                assert forall|j: int| 0 <= j < users.len() - 1 implies (#[trigger] users[j]).username
                    != username by {
                    assert(front[j] == users[j]);
                }
            },
        }
    }
}

/// A user found in a prefix is the user found in the whole table.
pub proof fn lemma_first_named_prefix(users: Seq<UserModel>, username: Seq<char>, n: int)
    requires
        0 <= n <= users.len(),
        first_named(users.take(n), username).is_some(),
    ensures
        first_named(users, username) == first_named(users.take(n), username),
    decreases users.len() - n,
{
    if n < users.len() {
        assert(users.take(n + 1).drop_last() =~= users.take(n));
        lemma_first_named_prefix(users, username, n + 1);
    } else {
        assert(users.take(n) =~= users);
    }
}

impl StoreModel {
    /// The user with the id `user_id`.
    pub open spec fn user_by_id(self, user_id: int) -> Option<UserModel> {
        match first_owned::<User>(self.users, user_id) {
            Some(i) => Some(self.users[i]),
            None => None,
        }
    }

    /// The user called `username`.
    pub open spec fn user_named(self, username: Seq<char>) -> Option<UserModel> {
        match first_named(self.users, username) {
            Some(i) => Some(self.users[i]),
            None => None,
        }
    }
}

/// Finds the user with the id `user_id`.
pub fn find_user(store: &Store, user_id: i64) -> (found: Option<usize>)
    ensures
        match found {
            Some(i) => {
                &&& i < store.users@.len()
                &&& first_owned::<User>(store@.users, user_id as int) == Some(i as int)
                &&& store@.user_by_id(user_id as int) == Some(store.users@[i as int]@)
            },
            None => store@.user_by_id(user_id as int).is_none(),
        },
{
    find_owned(&store.users, user_id)
}

/// Finds the user called `username`.
pub fn find_user_named(store: &Store, username: &str) -> (found: Option<usize>)
    ensures
        match found {
            Some(i) => {
                &&& i < store.users@.len()
                &&& first_named(store@.users, username@) == Some(i as int)
                &&& store@.user_named(username@) == Some(store.users@[i as int]@)
            },
            None => first_named(store@.users, username@).is_none() && store@.user_named(
                username@,
            ).is_none(),
        },
{
    let ghost all = models(store.users@);
    let mut i: usize = 0;
    assert(all.take(0) =~= Seq::<UserModel>::empty());
    while i < store.users.len()
        invariant
            i <= store.users.len(),
            all == models(store.users@),
            first_named(all.take(i as int), username@).is_none(),
        decreases store.users.len() - i,
    {
        proof {
            assert(all.take(i + 1).drop_last() =~= all.take(i as int));
            assert(all.take(i + 1).last() == store.users@[i as int]@);
        }
        if text_eq(store.users[i].username.as_str(), username) {
            proof {
                lemma_first_named_prefix(all, username@, i + 1);
            }
            return Some(i);
        }
        i = i + 1;
    }
    assert(all.take(i as int) =~= all);
    None
}

impl Sortable for String {
    /// Names in the order of their bytes.
    open spec fn before(a: Seq<char>, b: Seq<char>) -> bool {
        sorts_before(a, b)
    }

    proof fn lemma_before_transitive(a: Seq<char>, b: Seq<char>, c: Seq<char>) {
        lemma_bytes_before_transitive(encode_utf8(a), encode_utf8(b), encode_utf8(c));
    }

    proof fn lemma_before_irreflexive(a: Seq<char>) {
        lemma_bytes_before_irreflexive(encode_utf8(a));
    }

    fn is_before(&self, other: &Self) -> (before: bool) {
        text_before(self.as_str(), other.as_str())
    }
}

/// The usernames of a table, in the table's order.
pub open spec fn usernames(users: Seq<UserModel>) -> Seq<Seq<char>> {
    Seq::new(users.len(), |i: int| users[i].username)
}

/// Lists the usernames of all accounts, sorted.
pub fn list_users(store: &Store) -> (names: Vec<String>)
    ensures
        is_sorted::<String>(models(names@)),
        models(names@).to_multiset() == usernames(store@.users).to_multiset(),
        names@.len() == store@.users.len(),
{
    let mut names: Vec<String> = Vec::new();
    let mut i: usize = 0;
    while i < store.users.len()
        invariant
            i <= store.users.len(),
            names@.len() == i,
            forall|k: int| 0 <= k < i ==> (#[trigger] names@[k])@ == store@.users[k].username,
        decreases store.users.len() - i,
    {
        names.push(store.users[i].username.clone());
        i = i + 1;
    }
    assert(models(names@) =~= usernames(store@.users));
    sort(names)
}

} // verus!
