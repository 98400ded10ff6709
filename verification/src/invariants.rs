//! What holds of the accounts in every store that the operations build:
//! ids and usernames are unique, and a recovery envelope never outlives the
//! one-time secret it was made for.

use crate::accounts::lemma_first_named;
use crate::error::VaultError;
use crate::store::{ids, lemma_fresh_id_above, StoreModel, User, UserModel};
use crate::table::{lemma_first_owned, without_owner};
use vstd::prelude::*;

verus! {

/// Whether no two users share an id or a username, and every user with a
/// recovery envelope has a one-time secret.
pub open spec fn accounts_consistent(users: Seq<UserModel>) -> bool {
    &&& forall|i: int, j: int|
        0 <= i < j < users.len() ==> (#[trigger] users[i]).id != (#[trigger] users[j]).id
    &&& forall|i: int, j: int|
        0 <= i < j < users.len() ==> (#[trigger] users[i]).username != (#[trigger] users[j]).username
    &&& forall|i: int|
        0 <= i < users.len() ==> ((#[trigger] users[i]).recovery.is_some()
            ==> users[i].otp_secret.is_some())
}

impl StoreModel {
    /// Whether the accounts of the store are consistent.
    pub open spec fn well_formed(self) -> bool {
        accounts_consistent(self.users)
    }
}

/// A store without rows is well formed.
pub proof fn law_empty_store_well_formed()
    ensures
        StoreModel::empty().well_formed(),
{
}

/// An event more or less changes nothing about the accounts.
pub proof fn law_logging_keeps_accounts(
    store: StoreModel,
    user_id: int,
    action_type: Seq<char>,
    details: Seq<char>,
    stamp: Seq<char>,
)
    ensures
        store.with_log(user_id, action_type, details, stamp).users == store.users,
{
}

/// Signing up keeps the store well formed: the new user gets an id and a
/// name that no other user has, and no envelope.
pub proof fn law_create_user_keeps_well_formed(
    store: StoreModel,
    username: Seq<char>,
    password: Seq<char>,
    salt: Seq<char>,
    stamp: Seq<char>,
)
    requires
        store.well_formed(),
    ensures
        store.create_user_state(username, password, salt, stamp).well_formed(),
{
    let after = store.create_user_state(username, password, salt, stamp);
    if after.users != store.users {
        let id = store.next_user_id();
        lemma_fresh_id_above(ids::<User>(store.users));
        lemma_first_named(store.users, username);
        assert(after.users == store.users.push(after.users.last()));
        assert forall|i: int, j: int| 0 <= i < j < after.users.len() implies (#[trigger] after.users[i]).id
            != (#[trigger] after.users[j]).id by {
            if j == store.users.len() {
                assert(ids::<User>(store.users)[i] == store.users[i].id);
            }
        }
    }
}

/// Drawing or resetting a one-time secret keeps the store well formed: a
/// reset drops the envelope in the same step in which the secret changes.
pub proof fn law_otp_secret_keeps_well_formed(store: StoreModel, username: Seq<char>, fresh: Seq<char>)
    requires
        store.well_formed(),
    ensures
        store.generate_otp_secret_state(username, fresh).well_formed(),
        store.reset_otp_secret_state(username, fresh).well_formed(),
{
    lemma_first_named(store.users, username);
}

/// Setting recovery up keeps the store well formed: an envelope is stored
/// only with a user who has a one-time secret.
pub proof fn law_recovery_setup_keeps_well_formed(
    store: StoreModel,
    user_id: int,
    password: Seq<char>,
    envelope: crate::store::EnvelopeModel,
    stamp: Seq<char>,
)
    requires
        store.well_formed(),
    ensures
        store.setup_otp_recovery_state(user_id, password, envelope, stamp).well_formed(),
{
    lemma_first_owned::<User>(store.users, user_id);
}

/// Every user that a deletion leaves was there before, and the users that
/// are left keep their order.
pub proof fn lemma_without_owner_users(users: Seq<UserModel>, user_id: int)
    ensures
        accounts_consistent(users) ==> accounts_consistent(without_owner::<User>(users, user_id)),
        forall|k: int|
            0 <= k < without_owner::<User>(users, user_id).len() ==> users.contains(
                #[trigger] without_owner::<User>(users, user_id)[k],
            ),
    decreases users.len(),
{
    if users.len() > 0 {
        let front = users.drop_last();
        let kept = without_owner::<User>(front, user_id);
        lemma_without_owner_users(front, user_id);
        let after = without_owner::<User>(users, user_id);
        assert forall|k: int| 0 <= k < after.len() implies users.contains(#[trigger] after[k]) by {
            if k < kept.len() {
                assert(front.contains(kept[k]));
                let at = choose|at: int| 0 <= at < front.len() && front[at] == kept[k];
                assert(users[at] == kept[k]);
            } else {
                assert(users[users.len() - 1] == after[k]);
            }
        }
        if accounts_consistent(users) {
            assert(accounts_consistent(front)) by {
                assert forall|i: int| 0 <= i < front.len() implies front[i] == users[i] by {}
            }
            if users.last().id != user_id {
                assert forall|i: int, j: int| 0 <= i < j < after.len() implies (#[trigger] after[i]).id
                    != (#[trigger] after[j]).id && after[i].username != after[j].username by {
                    if j == kept.len() {
                        assert(front.contains(kept[i]));
                        let at = choose|at: int| 0 <= at < front.len() && front[at] == kept[i];
                        assert(users[at] == kept[i]);
                        assert(users[users.len() - 1] == after[j]);
                    }
                }
            }
        }
    }
}

/// Deleting a user keeps the store well formed.
pub proof fn law_delete_user_keeps_well_formed(store: StoreModel, user_id: int, password: Seq<char>)
    requires
        store.well_formed(),
    ensures
        store.delete_user_state(user_id, password).well_formed(),
{
    lemma_without_owner_users(store.users, user_id);
}

/// No user is left under the id of a deleted user.
pub proof fn law_deleted_user_is_gone(store: StoreModel, user_id: int, password: Seq<char>)
    requires
        store.delete_user_result(user_id, password) == Ok::<(), VaultError>(()),
    ensures
        store.delete_user_state(user_id, password).user_by_id(user_id).is_none(),
{
    lemma_no_owner_left(store.users, user_id);
    lemma_first_owned::<User>(without_owner::<User>(store.users, user_id), user_id);
}

/// A table from which a user's rows were deleted holds no row of the user.
pub proof fn lemma_no_owner_left(users: Seq<UserModel>, user_id: int)
    ensures
        forall|k: int|
            0 <= k < without_owner::<User>(users, user_id).len() ==> (#[trigger] without_owner::<User>(
                users,
                user_id,
            )[k]).id != user_id,
    decreases users.len(),
{
    if users.len() > 0 {
        lemma_no_owner_left(users.drop_last(), user_id);
    }
}

} // verus!
