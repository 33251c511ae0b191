//! Joining and leaving groups: what the answers of the service mean, and
//! which account a request is made for.

use vstd::prelude::*;
use vstd::string::StringExecFns;
use crate::accounts::position_of;
use crate::text::{decimal, signed_decimal, push_decimal, push_signed_decimal};
use crate::error::VaultError;
use crate::launcher::select_account;
use crate::profiles::{Profile, ProfileView, text_view};
use crate::vault::{CryptoState, VaultFile, VaultFileView, get_accounts, session_accounts};

verus! {

/// What the answer to a request to join a group means.
#[derive(Debug, Clone, Copy, PartialEq, Eq, Structural)]
pub enum JoinOutcome {
    /// The account is a member now.
    Joined,
    /// The account is a member already, or the group takes no members.
    AlreadyMemberOrLocked,
    /// The group is private, or the account is banned from it.
    Refused,
    /// Anything else.
    Failed,
}

/// Whether a status code of HTTP reports success.
pub open spec fn is_success(status: u16) -> bool {
    200 <= status < 300
}

/// What the status of the answer to a request to join a group means.
pub open spec fn join_outcome_of(status: u16) -> JoinOutcome {
    if is_success(status) {
        JoinOutcome::Joined
    } else if status == 400 {
        JoinOutcome::AlreadyMemberOrLocked
    } else if status == 403 {
        JoinOutcome::Refused
    } else {
        JoinOutcome::Failed
    }
}

/// The address of a group.
pub open spec fn group_url_of(group_id: u64) -> Seq<char> {
    "https://groups.roblox.com/v1/groups/"@ + decimal(group_id as nat)
}

/// The address of the members of a group, where joining is asked for.
pub open spec fn group_members_url_of(group_id: u64) -> Seq<char> {
    group_url_of(group_id) + "/users"@
}

/// The address of one member of a group, where leaving is asked for.
pub open spec fn group_member_url_of(group_id: u64, user_id: i64) -> Seq<char> {
    group_members_url_of(group_id) + "/"@ + signed_decimal(user_id as int)
}

/// The token to repeat a refused request with, if there is one: the service
/// refuses a request without a token with status 403 and names the token to
/// use.
pub open spec fn retry_token_of(status: u16, offered: Option<Seq<char>>) -> Option<Seq<char>> {
    if status == 403 {
        offered
    } else {
        None
    }
}

/// The account that a request names, in the vault under the key of the
/// session.
pub open spec fn requested_account(file: VaultFileView, key: Option<Seq<u8>>, id: Seq<char>) -> Result<
    ProfileView,
    VaultError,
> {
    match session_accounts(file, key) {
        Err(e) => Err(e),
        Ok(accounts) => match position_of(accounts, id) {
            Some(i) => Ok(accounts[i]),
            None => Err(VaultError::AccountNotFound),
        },
    }
}

/// The address of a group.
pub fn group_url(group_id: u64) -> (url: String)
    ensures
        url@ == group_url_of(group_id),
{
    let mut url: String = String::from_str("https://groups.roblox.com/v1/groups/");
    push_decimal(&mut url, group_id);
    url
}

/// The address of the members of a group, where joining is asked for.
pub fn group_members_url(group_id: u64) -> (url: String)
    ensures
        url@ == group_members_url_of(group_id),
{
    let mut url: String = group_url(group_id);
    url.append("/users");
    url
}

/// The address of one member of a group, where leaving is asked for.
pub fn group_member_url(group_id: u64, user_id: i64) -> (url: String)
    ensures
        url@ == group_member_url_of(group_id, user_id),
{
    let mut url: String = group_members_url(group_id);
    url.append("/");
    push_signed_decimal(&mut url, user_id);
    url
}

/// What the status of the answer to a request to join a group means.
pub fn join_outcome(status: u16) -> (outcome: JoinOutcome)
    ensures
        outcome == join_outcome_of(status),
{
    if 200 <= status && status < 300 {
        JoinOutcome::Joined
    } else if status == 400 {
        JoinOutcome::AlreadyMemberOrLocked
    } else if status == 403 {
        JoinOutcome::Refused
    } else {
        JoinOutcome::Failed
    }
}

/// Whether the answer to a request to leave a group reports success.
pub fn left_group(status: u16) -> (left: bool)
    ensures
        left == is_success(status),
{
    200 <= status && status < 300
}

/// The token to repeat a refused request with, if there is one.
pub fn retry_token(status: u16, offered: Option<String>) -> (token: Option<String>)
    ensures
        text_view(token) == retry_token_of(status, text_view(offered)),
{
    if status == 403 {
        offered
    } else {
        None
    }
}

/// The account with the identifier `account_id`, from the vault.
pub fn get_account(file: &VaultFile, state: &CryptoState, account_id: &str) -> (r: Result<
    Profile,
    VaultError,
>)
    ensures
        match r {
            Ok(account) => requested_account(file@, state.session_key(), account_id@) == Ok::<
                ProfileView,
                VaultError,
            >(account@),
            Err(e) => requested_account(file@, state.session_key(), account_id@) == Err::<
                ProfileView,
                VaultError,
            >(e),
        },
{
    let accounts: Vec<Profile> = match get_accounts(file, state) {
        Err(e) => {
            return Err(e);
        },
        Ok(accounts) => accounts,
    };
    select_account(&accounts, account_id)
}

/// The session token of the account with the identifier `account_id`.
pub fn get_account_cookie(file: &VaultFile, state: &CryptoState, account_id: &str) -> (r: Result<
    String,
    VaultError,
>)
    ensures
        match r {
            Ok(cookie) => requested_account(file@, state.session_key(), account_id@) matches Ok(
                account,
            ) && cookie@ == account.cookie,
            Err(e) => requested_account(file@, state.session_key(), account_id@) == Err::<
                ProfileView,
                VaultError,
            >(e),
        },
{
    match get_account(file, state, account_id) {
        Ok(account) => Ok(account.cookie),
        Err(e) => Err(e),
    }
}

/// The user of the account with the identifier `account_id`.
pub fn get_account_user_id(file: &VaultFile, state: &CryptoState, account_id: &str) -> (r: Result<
    i64,
    VaultError,
>)
    ensures
        match r {
            Ok(user_id) => requested_account(file@, state.session_key(), account_id@) matches Ok(
                account,
            ) && user_id == account.user_id,
            Err(e) => requested_account(file@, state.session_key(), account_id@) == Err::<
                ProfileView,
                VaultError,
            >(e),
        },
{
    match get_account(file, state, account_id) {
        Ok(account) => Ok(account.user_id),
        Err(e) => Err(e),
    }
}

} // verus!
