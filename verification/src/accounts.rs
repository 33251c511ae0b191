//! The rules of the account list: no user twice, and changes and removals
//! only of accounts that exist.

use vstd::prelude::*;
use crate::error::VaultError;
use crate::profiles::{Profile, ProfileView, views};
use crate::roblox::{RobloxUserData, RobloxUserDataView};
use crate::text::str_eq;

verus! {

/// Whether an account of the user `user_id` is in the list.
pub open spec fn has_user(accounts: Seq<ProfileView>, user_id: i64) -> bool {
    exists|i: int| 0 <= i < accounts.len() && (#[trigger] accounts[i]).user_id == user_id
}

/// Whether an account with the identifier `id` is in the list.
pub open spec fn has_id(accounts: Seq<ProfileView>, id: Seq<char>) -> bool {
    exists|i: int| 0 <= i < accounts.len() && (#[trigger] accounts[i]).id == id
}

/// No two accounts of the list belong to the same user.
pub open spec fn unique_users(accounts: Seq<ProfileView>) -> bool {
    forall|i: int, j: int|
        0 <= i < j < accounts.len() ==> (#[trigger] accounts[i]).user_id != (
        #[trigger] accounts[j]).user_id
}

/// No two accounts of the list have the same identifier.
pub open spec fn unique_ids(accounts: Seq<ProfileView>) -> bool {
    forall|i: int, j: int|
        0 <= i < j < accounts.len() ==> (#[trigger] accounts[i]).id != (#[trigger] accounts[j]).id
}

/// The account made for a token that the service accepted: what the service
/// said about the user, the token, an identifier, the time, and nothing set
/// by the user yet.
pub open spec fn new_profile(
    id: Seq<char>,
    cookie: Seq<char>,
    user: RobloxUserDataView,
    now: u64,
) -> ProfileView {
    ProfileView {
        id,
        cookie,
        user_id: user.id,
        username: user.name,
        display_name: user.display_name,
        thumbnail: user.thumbnail,
        alias: Seq::empty(),
        description: Seq::empty(),
        is_favorite: false,
        last_played_at: 0,
        created_at: now,
    }
}

/// The list with `profile` added at its end, unless its user is in the list.
pub open spec fn added(accounts: Seq<ProfileView>, profile: ProfileView) -> Result<
    Seq<ProfileView>,
    VaultError,
> {
    if has_user(accounts, profile.user_id) {
        Err(VaultError::DuplicateAccount)
    } else {
        Ok(accounts.push(profile))
    }
}

/// The index of the first account with the identifier `id`.
pub open spec fn position_of(accounts: Seq<ProfileView>, id: Seq<char>) -> Option<int>
    decreases accounts.len(),
{
    if accounts.len() == 0 {
        None
    } else {
        match position_of(accounts.drop_last(), id) {
            Some(i) => Some(i),
            None => if accounts.last().id == id {
                Some(accounts.len() - 1)
            } else {
                None
            },
        }
    }
}

/// `stored` with what the user may edit taken from `change`: alias, note,
/// favorite mark and time of last play. Everything else stays.
pub open spec fn edited(stored: ProfileView, change: ProfileView) -> ProfileView {
    ProfileView {
        alias: change.alias,
        description: change.description,
        is_favorite: change.is_favorite,
        last_played_at: change.last_played_at,
        ..stored
    }
}

/// The list with the first account that has the identifier of `change`
/// edited by it, unless there is none.
pub open spec fn updated(accounts: Seq<ProfileView>, change: ProfileView) -> Result<
    Seq<ProfileView>,
    VaultError,
> {
    match position_of(accounts, change.id) {
        Some(i) => Ok(accounts.update(i, edited(accounts[i], change))),
        None => Err(VaultError::AccountNotFound),
    }
}

/// The accounts of the list whose identifier is not `id`, in order.
pub open spec fn without_id(accounts: Seq<ProfileView>, id: Seq<char>) -> Seq<ProfileView>
    decreases accounts.len(),
{
    if accounts.len() == 0 {
        Seq::empty()
    } else if accounts.last().id == id {
        without_id(accounts.drop_last(), id)
    } else {
        without_id(accounts.drop_last(), id).push(accounts.last())
    }
}

/// The list without the accounts that have the identifier `id`, unless
/// there is none.
pub open spec fn deleted(accounts: Seq<ProfileView>, id: Seq<char>) -> Result<
    Seq<ProfileView>,
    VaultError,
> {
    if has_id(accounts, id) {
        Ok(without_id(accounts, id))
    } else {
        Err(VaultError::AccountNotFound)
    }
}

/// `existing` followed by those of `imported`, in order, whose user is not
/// in the list before them.
pub open spec fn merged(existing: Seq<ProfileView>, imported: Seq<ProfileView>) -> Seq<
    ProfileView,
>
    decreases imported.len(),
{
    if imported.len() == 0 {
        existing
    } else {
        let before = merged(existing, imported.drop_last());
        if has_user(before, imported.last().user_id) {
            before
        } else {
            before.push(imported.last())
        }
    }
}

/// `position_of` gives the first index with the identifier, and `None` only
/// if no account has it.
pub proof fn lemma_position_of(accounts: Seq<ProfileView>, id: Seq<char>)
    ensures
        match position_of(accounts, id) {
            Some(i) => 0 <= i < accounts.len() && accounts[i].id == id && forall|j: int|
                0 <= j < i ==> (#[trigger] accounts[j]).id != id,
            None => !has_id(accounts, id),
        },
    decreases accounts.len(),
{
    if accounts.len() > 0 {
        let front = accounts.drop_last();
        lemma_position_of(front, id);
        match position_of(front, id) {
            Some(i) => {
                assert(accounts[i] == front[i]);
                assert forall|j: int| 0 <= j < i implies (#[trigger] accounts[j]).id != id by {
                    assert(accounts[j] == front[j]);
                }
            },
            None => {
                if accounts.last().id == id {
                    assert forall|j: int| 0 <= j < accounts.len() - 1 implies (
                    #[trigger] accounts[j]).id != id by {
                        assert(front[j] == accounts[j]);
                    }
                } else {
                    assert forall|j: int| 0 <= j < accounts.len() implies (
                    #[trigger] accounts[j]).id != id by {
                        if j < accounts.len() - 1 {
                            assert(front[j] == accounts[j]);
                        }
                    }
                }
            },
        }
    }
}

/// Removing by identifier shortens the list exactly if an account had the
/// identifier.
pub proof fn lemma_without_id_len(accounts: Seq<ProfileView>, id: Seq<char>)
    ensures
        without_id(accounts, id).len() <= accounts.len(),
        without_id(accounts, id).len() == accounts.len() <==> !has_id(accounts, id),
    decreases accounts.len(),
{
    if accounts.len() > 0 {
        let front = accounts.drop_last();
        lemma_without_id_len(front, id);
        if has_id(front, id) {
            let i = choose|i: int| 0 <= i < front.len() && (#[trigger] front[i]).id == id;
            assert(accounts[i] == front[i]);
        }
        if accounts.last().id == id {
            assert(accounts[accounts.len() - 1].id == id);
        } else if has_id(accounts, id) {
            let i = choose|i: int| 0 <= i < accounts.len() && (#[trigger] accounts[i]).id == id;
            assert(front[i] == accounts[i]);
        }
    }
}

/// Whoever is in the list after a removal was in it before, and does not
/// have the identifier that was removed.
pub proof fn lemma_without_id_members(accounts: Seq<ProfileView>, id: Seq<char>)
    ensures
        forall|user_id: i64| #[trigger]
            has_user(without_id(accounts, id), user_id) ==> has_user(accounts, user_id),
        forall|other: Seq<char>| #[trigger]
            has_id(without_id(accounts, id), other) ==> other != id && has_id(accounts, other),
    decreases accounts.len(),
{
    let rest = without_id(accounts, id);
    if accounts.len() > 0 {
        let front = accounts.drop_last();
        let front_rest = without_id(front, id);
        lemma_without_id_members(front, id);
        assert forall|user_id: i64| #[trigger] has_user(rest, user_id) implies has_user(
            accounts,
            user_id,
        ) by {
            let k = choose|k: int| 0 <= k < rest.len() && (#[trigger] rest[k]).user_id == user_id;
            if k < front_rest.len() {
                assert(front_rest[k] == rest[k]);
                assert(has_user(front_rest, user_id));
                let j = choose|j: int|
                    0 <= j < front.len() && (#[trigger] front[j]).user_id == user_id;
                assert(accounts[j] == front[j]);
            } else {
                assert(accounts[accounts.len() - 1].user_id == user_id);
            }
        }
        assert forall|other: Seq<char>| #[trigger] has_id(rest, other) implies other != id
            && has_id(accounts, other) by {
            let k = choose|k: int| 0 <= k < rest.len() && (#[trigger] rest[k]).id == other;
            if k < front_rest.len() {
                assert(front_rest[k] == rest[k]);
                assert(has_id(front_rest, other));
                let j = choose|j: int| 0 <= j < front.len() && (#[trigger] front[j]).id == other;
                assert(accounts[j] == front[j]);
            } else {
                assert(accounts[accounts.len() - 1].id == other);
            }
        }
    }
}

/// Removing accounts keeps users and identifiers distinct, and no account
/// with the removed identifier is left.
pub proof fn lemma_deleted_keeps_unique(accounts: Seq<ProfileView>, id: Seq<char>)
    ensures
        !has_id(without_id(accounts, id), id),
        unique_users(accounts) ==> unique_users(without_id(accounts, id)),
        unique_ids(accounts) ==> unique_ids(without_id(accounts, id)),
    decreases accounts.len(),
{
    let rest = without_id(accounts, id);
    lemma_without_id_members(accounts, id);
    if accounts.len() > 0 {
        let front = accounts.drop_last();
        let front_rest = without_id(front, id);
        let last = accounts.last();
        lemma_deleted_keeps_unique(front, id);
        lemma_without_id_members(front, id);
        if last.id != id {
            if unique_users(accounts) {
                assert(unique_users(front)) by {
                    assert forall|i: int, j: int| 0 <= i < j < front.len() implies (
                    #[trigger] front[i]).user_id != (#[trigger] front[j]).user_id by {
                        assert(accounts[i] == front[i]);
                        assert(accounts[j] == front[j]);
                    }
                }
                assert forall|i: int, j: int| 0 <= i < j < rest.len() implies (
                #[trigger] rest[i]).user_id != (#[trigger] rest[j]).user_id by {
                    assert(rest[i] == front_rest[i]);
                    if j < front_rest.len() {
                        assert(rest[j] == front_rest[j]);
                    } else {
                        assert(has_user(front_rest, rest[i].user_id));
                        let k = choose|k: int|
                            0 <= k < front.len() && (#[trigger] front[k]).user_id
                                == rest[i].user_id;
                        assert(accounts[k] == front[k]);
                    }
                }
            }
            if unique_ids(accounts) {
                assert(unique_ids(front)) by {
                    assert forall|i: int, j: int| 0 <= i < j < front.len() implies (
                    #[trigger] front[i]).id != (#[trigger] front[j]).id by {
                        assert(accounts[i] == front[i]);
                        assert(accounts[j] == front[j]);
                    }
                }
                assert forall|i: int, j: int| 0 <= i < j < rest.len() implies (
                #[trigger] rest[i]).id != (#[trigger] rest[j]).id by {
                    assert(rest[i] == front_rest[i]);
                    if j < front_rest.len() {
                        assert(rest[j] == front_rest[j]);
                    } else {
                        assert(has_id(front_rest, rest[i].id));
                        let k = choose|k: int|
                            0 <= k < front.len() && (#[trigger] front[k]).id == rest[i].id;
                        assert(accounts[k] == front[k]);
                    }
                }
            }
        } else {
            if unique_users(accounts) {
                assert(unique_users(front)) by {
                    assert forall|i: int, j: int| 0 <= i < j < front.len() implies (
                    #[trigger] front[i]).user_id != (#[trigger] front[j]).user_id by {
                        assert(accounts[i] == front[i]);
                        assert(accounts[j] == front[j]);
                    }
                }
            }
            if unique_ids(accounts) {
                assert(unique_ids(front)) by {
                    assert forall|i: int, j: int| 0 <= i < j < front.len() implies (
                    #[trigger] front[i]).id != (#[trigger] front[j]).id by {
                        assert(accounts[i] == front[i]);
                        assert(accounts[j] == front[j]);
                    }
                }
            }
        }
    }
}

/// Adding an account keeps the users of the list distinct.
pub proof fn lemma_added_keeps_users_unique(accounts: Seq<ProfileView>, profile: ProfileView)
    requires
        unique_users(accounts),
    ensures
        added(accounts, profile) matches Ok(list) ==> unique_users(list),
{
}

/// Adding an account under a fresh identifier keeps the identifiers of the
/// list distinct.
pub proof fn lemma_added_keeps_ids_unique(accounts: Seq<ProfileView>, profile: ProfileView)
    requires
        unique_ids(accounts),
        !has_id(accounts, profile.id),
    ensures
        added(accounts, profile) matches Ok(list) ==> unique_ids(list),
{
}

/// Editing an account changes neither users nor identifiers, so both stay
/// distinct.
pub proof fn lemma_updated_keeps_unique(accounts: Seq<ProfileView>, change: ProfileView)
    ensures
        updated(accounts, change) matches Ok(list) ==> {
            &&& list.len() == accounts.len()
            &&& unique_users(accounts) ==> unique_users(list)
            &&& unique_ids(accounts) ==> unique_ids(list)
        },
{
    lemma_position_of(accounts, change.id);
}

/// Merging keeps the users of the list distinct.
pub proof fn lemma_merged_keeps_users_unique(
    existing: Seq<ProfileView>,
    imported: Seq<ProfileView>,
)
    requires
        unique_users(existing),
    ensures
        unique_users(merged(existing, imported)),
    decreases imported.len(),
{
    if imported.len() > 0 {
        lemma_merged_keeps_users_unique(existing, imported.drop_last());
    }
}

/// Makes the account for a token that the service accepted.
pub fn make_profile(id: String, cookie: String, user: RobloxUserData, now: u64) -> (profile:
    Profile)
    ensures
        profile@ == new_profile(id@, cookie@, user@, now),
{
    Profile {
        id,
        cookie,
        user_id: user.id,
        username: user.name,
        display_name: user.display_name,
        thumbnail: user.thumbnail,
        alias: String::new(),
        description: String::new(),
        is_favorite: false,
        last_played_at: 0,
        created_at: now,
    }
}

/// Whether an account of the user `user_id` is in the list.
pub fn contains_user(accounts: &Vec<Profile>, user_id: i64) -> (found: bool)
    ensures
        found == has_user(views(accounts@), user_id),
{
    let mut i: usize = 0;
    while i < accounts.len()
        invariant
            i <= accounts@.len(),
            forall|j: int| 0 <= j < i ==> (#[trigger] views(accounts@)[j]).user_id != user_id,
        decreases accounts@.len() - i,
    {
        if accounts[i].user_id == user_id {
            assert(views(accounts@)[i as int].user_id == user_id);
            return true;
        }
        i = i + 1;
    }
    false
}

/// Adds `profile` at the end of the list, unless its user is in the list.
pub fn with_account(accounts: Vec<Profile>, profile: Profile) -> (r: Result<
    Vec<Profile>,
    VaultError,
>)
    ensures
        match r {
            Ok(list) => added(views(accounts@), profile@) == Ok::<Seq<ProfileView>, VaultError>(
                views(list@),
            ),
            Err(e) => added(views(accounts@), profile@) == Err::<Seq<ProfileView>, VaultError>(e),
        },
{
    if contains_user(&accounts, profile.user_id) {
        return Err(VaultError::DuplicateAccount);
    }
    let mut list: Vec<Profile> = accounts;
    let ghost before = views(list@);
    list.push(profile);
    proof {
        assert(views(list@) =~= before.push(profile@));
    }
    Ok(list)
}

/// The index of the first account with the identifier `id`.
pub fn find_account(accounts: &Vec<Profile>, id: &str) -> (at: Option<usize>)
    ensures
        match at {
            Some(i) => position_of(views(accounts@), id@) == Some(i as int),
            None => position_of(views(accounts@), id@) is None,
        },
{
    let ghost all = views(accounts@);
    let mut i: usize = 0;
    proof {
        assert(all.take(0) =~= Seq::<ProfileView>::empty());
    }
    while i < accounts.len()
        invariant
            i <= accounts@.len(),
            all == views(accounts@),
            position_of(all.take(i as int), id@) is None,
        decreases accounts@.len() - i,
    {
        proof {
            assert(all.take(i + 1).drop_last() =~= all.take(i as int));
            assert(all.take(i + 1).last() == all[i as int]);
        }
        if str_eq(accounts[i].id.as_str(), id) {
            proof {
                lemma_position_prefix(all, id@, i + 1);
            }
            return Some(i);
        }
        i = i + 1;
    }
    proof {
        assert(all.take(all.len() as int) =~= all);
    }
    None
}

/// A hit in a prefix of the list is the hit in the whole list.
proof fn lemma_position_prefix(accounts: Seq<ProfileView>, id: Seq<char>, k: int)
    requires
        0 <= k <= accounts.len(),
        position_of(accounts.take(k), id) is Some,
    ensures
        position_of(accounts, id) == position_of(accounts.take(k), id),
    decreases accounts.len() - k,
{
    if k < accounts.len() {
        assert(accounts.take(k + 1).drop_last() =~= accounts.take(k));
        lemma_position_prefix(accounts, id, k + 1);
    } else {
        assert(accounts.take(k) =~= accounts);
    }
}

/// Edits the first account that has the identifier of `change`: alias,
/// note, favorite mark and time of last play are taken from `change`.
pub fn with_changes(accounts: Vec<Profile>, change: &Profile) -> (r: Result<
    Vec<Profile>,
    VaultError,
>)
    ensures
        match r {
            Ok(list) => updated(views(accounts@), change@) == Ok::<Seq<ProfileView>, VaultError>(
                views(list@),
            ),
            Err(e) => updated(views(accounts@), change@) == Err::<Seq<ProfileView>, VaultError>(
                e,
            ),
        },
{
    match find_account(&accounts, change.id.as_str()) {
        None => Err(VaultError::AccountNotFound),
        Some(i) => {
            proof {
                lemma_position_of(views(accounts@), change@.id);
            }
            let mut edited_profile: Profile = accounts[i].duplicate();
            edited_profile.alias = change.alias.clone();
            edited_profile.description = change.description.clone();
            edited_profile.is_favorite = change.is_favorite;
            edited_profile.last_played_at = change.last_played_at;
            let ghost before = views(accounts@);
            let mut list: Vec<Profile> = accounts;
            list.set(i, edited_profile);
            proof {
                assert(views(list@) =~= before.update(i as int, edited(before[i as int], change@)));
            }
            Ok(list)
        },
    }
}

/// Removes the accounts that have the identifier `id`; there must be one.
pub fn without_account(accounts: Vec<Profile>, id: &str) -> (r: Result<Vec<Profile>, VaultError>)
    ensures
        match r {
            Ok(list) => deleted(views(accounts@), id@) == Ok::<Seq<ProfileView>, VaultError>(
                views(list@),
            ),
            Err(e) => deleted(views(accounts@), id@) == Err::<Seq<ProfileView>, VaultError>(e),
        },
{
    let ghost all = views(accounts@);
    let mut list: Vec<Profile> = Vec::new();
    let mut i: usize = 0;
    proof {
        assert(all.take(0) =~= Seq::<ProfileView>::empty());
    }
    while i < accounts.len()
        invariant
            i <= accounts@.len(),
            all == views(accounts@),
            views(list@) == without_id(all.take(i as int), id@),
        decreases accounts@.len() - i,
    {
        proof {
            assert(all.take(i + 1).drop_last() =~= all.take(i as int));
            assert(all.take(i + 1).last() == all[i as int]);
        }
        if !str_eq(accounts[i].id.as_str(), id) {
            let ghost before = views(list@);
            list.push(accounts[i].duplicate());
            proof {
                assert(views(list@) =~= before.push(all[i as int]));
            }
        }
        i = i + 1;
    }
    proof {
        assert(all.take(all.len() as int) =~= all);
        lemma_without_id_len(all, id@);
        assert(views(list@).len() == list@.len());
        assert(all.len() == accounts@.len());
    }
    if list.len() == accounts.len() {
        Err(VaultError::AccountNotFound)
    } else {
        Ok(list)
    }
}

/// Appends to `existing` those of `imported`, in order, whose user is not
/// yet in the list.
pub fn merge_accounts(existing: Vec<Profile>, imported: &Vec<Profile>) -> (list: Vec<Profile>)
    ensures
        views(list@) == merged(views(existing@), views(imported@)),
{
    let ghost all = views(imported@);
    let mut list: Vec<Profile> = existing;
    let mut i: usize = 0;
    proof {
        assert(all.take(0) =~= Seq::<ProfileView>::empty());
    }
    while i < imported.len()
        invariant
            i <= imported@.len(),
            all == views(imported@),
            views(list@) == merged(views(existing@), all.take(i as int)),
        decreases imported@.len() - i,
    {
        proof {
            assert(all.take(i + 1).drop_last() =~= all.take(i as int));
            assert(all.take(i + 1).last() == all[i as int]);
        }
        if !contains_user(&list, imported[i].user_id) {
            let ghost before = views(list@);
            list.push(imported[i].duplicate());
            proof {
                assert(views(list@) =~= before.push(all[i as int]));
            }
        }
        i = i + 1;
    }
    proof {
        assert(all.take(all.len() as int) =~= all);
    }
    list
}

} // verus!
