//! The vault: the encrypted account list on disk and the session over it.
//!
//! The functions here decide and compute; they do not touch the disk. The
//! caller reads the vault file and says what it found ([`VaultFile`]), and
//! writes back the record that a function returns. A session
//! ([`CryptoState`]) is locked until a password has proved itself against
//! the verification blob of the record, and locked again on request.

use vstd::prelude::*;
use vstd::utf8::{is_ascii_chars, is_ascii_chars_encode_utf8};
use vstd::pervasive::unreached;
use crate::accounts::{added, updated, deleted, merged, new_profile, has_user, make_profile,
    with_account, with_changes, without_account, merge_accounts};
use crate::crypto::{opened_blob, sealed_blob, blob_nonce, sealable, derived_key, derive_key,
    encrypt_with_nonce, decrypt_string, NONCE_LEN};
use crate::error::VaultError;
use crate::profiles::{Profile, ProfileView, views, text_view, copy_text};
use crate::roblox::RobloxUserData;
use crate::text::str_eq;
use crate::trusted::{random_nonce, new_uuid_v4, utc_timestamp_now};

verus! {

/// The version tag of the records that [`create_vault`] makes.
pub const VAULT_VERSION: u32 = 1;

/// The text whose encryption proves a key: a record stores it sealed, and a
/// key that opens it is the key of the vault.
pub open spec fn verification_text() -> Seq<char> {
    "ROKIO_VAULT_V1"@
}

/// An account as the vault file holds it: the token sealed, the rest in the
/// clear.
#[derive(Debug, Clone)]
pub struct EncryptedAccount {
    pub id: String,
    pub encrypted_cookie: String,
    pub user_id: i64,
    pub username: String,
    pub display_name: String,
    pub thumbnail: Option<String>,
    pub alias: String,
    pub description: String,
    pub is_favorite: bool,
    pub last_played_at: u64,
    pub created_at: u64,
}

/// A stored account as mathematics sees it.
pub struct EncryptedAccountView {
    pub id: Seq<char>,
    pub encrypted_cookie: Seq<char>,
    pub user_id: i64,
    pub username: Seq<char>,
    pub display_name: Seq<char>,
    pub thumbnail: Option<Seq<char>>,
    pub alias: Seq<char>,
    pub description: Seq<char>,
    pub is_favorite: bool,
    pub last_played_at: u64,
    pub created_at: u64,
}

impl View for EncryptedAccount {
    type V = EncryptedAccountView;

    open spec fn view(&self) -> EncryptedAccountView {
        EncryptedAccountView {
            id: self.id@,
            encrypted_cookie: self.encrypted_cookie@,
            user_id: self.user_id,
            username: self.username@,
            display_name: self.display_name@,
            thumbnail: text_view(self.thumbnail),
            alias: self.alias@,
            description: self.description@,
            is_favorite: self.is_favorite,
            last_played_at: self.last_played_at,
            created_at: self.created_at,
        }
    }
}

/// The record in the vault file.
#[derive(Debug, Clone)]
pub struct VaultData {
    pub version: u32,
    /// The verification text, sealed under the key of the vault.
    pub verification: String,
    pub accounts: Vec<EncryptedAccount>,
}

/// A record as mathematics sees it.
pub struct VaultDataView {
    pub version: u32,
    pub verification: Seq<char>,
    pub accounts: Seq<EncryptedAccountView>,
}

/// The stored accounts of a list, each as its view.
pub open spec fn stored_views(accounts: Seq<EncryptedAccount>) -> Seq<EncryptedAccountView> {
    Seq::new(accounts.len(), |i: int| accounts[i]@)
}

impl View for VaultData {
    type V = VaultDataView;

    open spec fn view(&self) -> VaultDataView {
        VaultDataView {
            version: self.version,
            verification: self.verification@,
            accounts: stored_views(self.accounts@),
        }
    }
}

/// What the caller found where the vault file should be.
#[derive(Debug, Clone)]
pub enum VaultFile {
    /// There is no file.
    Missing,
    /// There is a file, and reading it failed.
    Unreadable,
    /// The file does not hold a vault record.
    Malformed,
    /// The record that the file holds.
    Record(VaultData),
}

/// What the caller found, as mathematics sees it.
pub enum VaultFileView {
    Missing,
    Unreadable,
    Malformed,
    Record(VaultDataView),
}

impl View for VaultFile {
    type V = VaultFileView;

    open spec fn view(&self) -> VaultFileView {
        match self {
            VaultFile::Missing => VaultFileView::Missing,
            VaultFile::Unreadable => VaultFileView::Unreadable,
            VaultFile::Malformed => VaultFileView::Malformed,
            VaultFile::Record(record) => VaultFileView::Record(record@),
        }
    }
}

/// The session: locked while it holds no key, unlocked while it holds the
/// key of the vault. The key lives here and nowhere else.
#[derive(Debug)]
pub struct CryptoState {
    pub key: Option<[u8; 32]>,
}

impl CryptoState {
    /// The key of the session, if it is unlocked.
    pub open spec fn session_key(&self) -> Option<Seq<u8>> {
        match self.key {
            Some(key) => Some(key@),
            None => None,
        }
    }

    /// A locked session.
    pub fn new() -> (state: Self)
        ensures
            state.key is None,
    {
        CryptoState { key: None }
    }

    /// Whether the session holds a key.
    pub fn is_unlocked(&self) -> (unlocked: bool)
        ensures
            unlocked == self.key is Some,
    {
        self.key.is_some()
    }
}

impl Default for CryptoState {
    fn default() -> (state: Self)
        ensures
            state.key is None,
    {
        CryptoState { key: None }
    }
}

/// Whether a vault file exists and whether the session is unlocked.
#[derive(Debug, Clone, Copy, PartialEq, Eq, Structural)]
pub struct VaultStatus {
    pub exists: bool,
    pub unlocked: bool,
}

/// Whether `key` opens `verification` to the verification text.
pub open spec fn verifies(verification: Seq<char>, key: Seq<u8>) -> bool {
    opened_blob(verification, key) == Ok::<Seq<char>, VaultError>(verification_text())
}

/// The failure that the state of the file stands for, if it is one.
pub open spec fn file_failure(file: VaultFileView) -> Option<VaultError> {
    match file {
        VaultFileView::Missing => Some(VaultError::NotFound),
        VaultFileView::Unreadable => Some(VaultError::Io),
        VaultFileView::Malformed => Some(VaultError::Parse),
        VaultFileView::Record(_) => None,
    }
}

/// What unlocking answers: a failure where there is no record, else
/// whether the key of the password opens the verification blob.
pub open spec fn unlock_outcome(
    file: VaultFileView,
    password: Seq<char>,
    machine_id: Seq<char>,
) -> Result<bool, VaultError> {
    match file {
        VaultFileView::Record(record) => Ok(
            verifies(record.verification, derived_key(password, machine_id)),
        ),
        _ => Err(file_failure(file)->0),
    }
}

/// The account under a stored account: the token opened, the rest as it is.
pub open spec fn opened_account(stored: EncryptedAccountView, key: Seq<u8>) -> Result<
    ProfileView,
    VaultError,
> {
    match opened_blob(stored.encrypted_cookie, key) {
        Ok(cookie) => Ok(
            ProfileView {
                id: stored.id,
                cookie,
                user_id: stored.user_id,
                username: stored.username,
                display_name: stored.display_name,
                thumbnail: stored.thumbnail,
                alias: stored.alias,
                description: stored.description,
                is_favorite: stored.is_favorite,
                last_played_at: stored.last_played_at,
                created_at: stored.created_at,
            },
        ),
        Err(e) => Err(e),
    }
}

/// The accounts under a list of stored accounts, or the failure of the first
/// that does not open.
pub open spec fn opened_accounts(stored: Seq<EncryptedAccountView>, key: Seq<u8>) -> Result<
    Seq<ProfileView>,
    VaultError,
>
    decreases stored.len(),
{
    if stored.len() == 0 {
        Ok(Seq::empty())
    } else {
        match opened_accounts(stored.drop_last(), key) {
            Err(e) => Err(e),
            Ok(front) => match opened_account(stored.last(), key) {
                Err(e) => Err(e),
                Ok(account) => Ok(front.push(account)),
            },
        }
    }
}

/// The accounts under those of a list of stored accounts that do open.
pub open spec fn openable_accounts(stored: Seq<EncryptedAccountView>, key: Seq<u8>) -> Seq<
    ProfileView,
>
    decreases stored.len(),
{
    if stored.len() == 0 {
        Seq::empty()
    } else {
        let front = openable_accounts(stored.drop_last(), key);
        match opened_account(stored.last(), key) {
            Err(_) => front,
            Ok(account) => front.push(account),
        }
    }
}

/// What loading answers. A missing file holds no accounts.
pub open spec fn loaded(file: VaultFileView, key: Seq<u8>) -> Result<Seq<ProfileView>, VaultError> {
    match file {
        VaultFileView::Missing => Ok(Seq::empty()),
        VaultFileView::Record(record) => opened_accounts(record.accounts, key),
        _ => Err(file_failure(file)->0),
    }
}

/// An account as it is stored: the token sealed with `nonce`, the rest as
/// it is.
pub open spec fn sealed_account(account: ProfileView, key: Seq<u8>, nonce: Seq<u8>) -> EncryptedAccountView {
    EncryptedAccountView {
        id: account.id,
        encrypted_cookie: sealed_blob(account.cookie, key, nonce),
        user_id: account.user_id,
        username: account.username,
        display_name: account.display_name,
        thumbnail: account.thumbnail,
        alias: account.alias,
        description: account.description,
        is_favorite: account.is_favorite,
        last_played_at: account.last_played_at,
        created_at: account.created_at,
    }
}

/// A list of accounts as it is stored, account `i` sealed with nonce `i`.
pub open spec fn sealed_accounts(
    accounts: Seq<ProfileView>,
    key: Seq<u8>,
    nonces: Seq<Seq<u8>>,
) -> Seq<EncryptedAccountView> {
    Seq::new(accounts.len(), |i: int| sealed_account(accounts[i], key, nonces[i]))
}

/// Whether the token of every account is short enough to seal.
pub open spec fn all_sealable(accounts: Seq<ProfileView>) -> bool {
    forall|i: int| 0 <= i < accounts.len() ==> sealable((#[trigger] accounts[i]).cookie)
}

/// Why `accounts` cannot be saved over `file`, if they cannot: there is no
/// record to take version and verification from, or a token is too long.
pub open spec fn save_failure(file: VaultFileView, accounts: Seq<ProfileView>) -> Option<
    VaultError,
> {
    if file_failure(file) is Some {
        file_failure(file)
    } else if !all_sealable(accounts) {
        Some(VaultError::Encryption)
    } else {
        None
    }
}

/// What saving with given nonces writes: the record of the file with its
/// accounts replaced.
pub open spec fn saved(
    file: VaultFileView,
    key: Seq<u8>,
    accounts: Seq<ProfileView>,
    nonces: Seq<Seq<u8>>,
) -> Result<VaultDataView, VaultError> {
    match save_failure(file, accounts) {
        Some(e) => Err(e),
        None => Ok(
            VaultDataView {
                version: file->Record_0.version,
                verification: file->Record_0.verification,
                accounts: sealed_accounts(accounts, key, nonces),
            },
        ),
    }
}

/// Whether `record` is `file` with its accounts replaced by `accounts`:
/// version and verification are those of the file, and the stored accounts
/// open under `key` to `accounts`, token and all.
pub open spec fn replaces_accounts(
    record: VaultDataView,
    file: VaultFileView,
    key: Seq<u8>,
    accounts: Seq<ProfileView>,
) -> bool {
    &&& file is Record
    &&& record.version == file->Record_0.version
    &&& record.verification == file->Record_0.verification
    &&& opened_accounts(record.accounts, key) == Ok::<Seq<ProfileView>, VaultError>(accounts)
}

/// What a change of the account list comes to once it is saved: the failure
/// of the change, else the failure of the save, else the new list.
pub open spec fn committed(
    file: VaultFileView,
    change: Result<Seq<ProfileView>, VaultError>,
) -> Result<Seq<ProfileView>, VaultError> {
    match change {
        Err(e) => Err(e),
        Ok(accounts) => match save_failure(file, accounts) {
            Some(e) => Err(e),
            None => Ok(accounts),
        },
    }
}

/// Whether `result` carries out `plan` on `file`: the same failure, or a
/// record that is the file with its accounts replaced by the planned list.
pub open spec fn carries_out(
    result: Result<VaultData, VaultError>,
    file: VaultFileView,
    key: Option<Seq<u8>>,
    plan: Result<Seq<ProfileView>, VaultError>,
) -> bool {
    match result {
        Ok(record) => key is Some && plan is Ok && replaces_accounts(
            record@,
            file,
            key->0,
            plan->Ok_0,
        ),
        Err(e) => plan == Err::<Seq<ProfileView>, VaultError>(e),
    }
}

/// What a session sees of the accounts in the file: nothing while it is
/// locked, else what loads under its key.
pub open spec fn session_accounts(file: VaultFileView, key: Option<Seq<u8>>) -> Result<
    Seq<ProfileView>,
    VaultError,
> {
    match key {
        None => Err(VaultError::Locked),
        Some(k) => loaded(file, k),
    }
}

/// A change of the accounts in the file under the key of a session: locked
/// without a key, else what `change` makes of the loaded accounts, saved.
pub open spec fn session_plan(
    file: VaultFileView,
    key: Option<Seq<u8>>,
    change: spec_fn(Seq<ProfileView>) -> Result<Seq<ProfileView>, VaultError>,
) -> Result<Seq<ProfileView>, VaultError> {
    match session_accounts(file, key) {
        Err(e) => Err(e),
        Ok(accounts) => committed(file, change(accounts)),
    }
}

/// The plan of [`add_profile`].
pub open spec fn add_plan(file: VaultFileView, key: Option<Seq<u8>>, profile: ProfileView) -> Result<
    Seq<ProfileView>,
    VaultError,
> {
    session_plan(file, key, |accounts: Seq<ProfileView>| added(accounts, profile))
}

/// The plan of [`update_account`].
pub open spec fn update_plan(
    file: VaultFileView,
    key: Option<Seq<u8>>,
    change: ProfileView,
) -> Result<Seq<ProfileView>, VaultError> {
    session_plan(file, key, |accounts: Seq<ProfileView>| updated(accounts, change))
}

/// The plan of [`delete_account`].
pub open spec fn delete_plan(file: VaultFileView, key: Option<Seq<u8>>, id: Seq<char>) -> Result<
    Seq<ProfileView>,
    VaultError,
> {
    session_plan(file, key, |accounts: Seq<ProfileView>| deleted(accounts, id))
}

/// The plan of [`clear_accounts`]: save the empty list, whatever is stored.
pub open spec fn clear_plan(file: VaultFileView, key: Option<Seq<u8>>) -> Result<
    Seq<ProfileView>,
    VaultError,
> {
    match key {
        None => Err(VaultError::Locked),
        Some(_) => committed(file, Ok(Seq::empty())),
    }
}

/// The accounts that an import brings: those of the backup that open under
/// the key.
pub open spec fn imported_accounts(backup: Option<VaultDataView>, key: Seq<u8>) -> Seq<
    ProfileView,
> {
    match backup {
        Some(record) => openable_accounts(record.accounts, key),
        None => Seq::empty(),
    }
}

/// The plan of [`import_accounts`]: the imported accounts replace the
/// stored ones, or are merged into what loads of them (nothing, if loading
/// fails).
pub open spec fn import_plan(
    file: VaultFileView,
    key: Option<Seq<u8>>,
    backup: Option<VaultDataView>,
    merge: bool,
) -> Result<Seq<ProfileView>, VaultError> {
    match key {
        None => Err(VaultError::Locked),
        Some(k) => if backup is None {
            Err(VaultError::Parse)
        } else {
            let imported = imported_accounts(backup, k);
            if merge {
                let existing = match loaded(file, k) {
                    Ok(accounts) => accounts,
                    Err(_) => Seq::empty(),
                };
                committed(file, Ok(merged(existing, imported)))
            } else {
                committed(file, Ok(imported))
            }
        },
    }
}

/// Whether stored account `i` carries nonce `i` at the front of its blob,
/// for every `i`.
pub open spec fn sealed_under(stored: Seq<EncryptedAccountView>, nonces: Seq<Seq<u8>>) -> bool {
    &&& stored.len() == nonces.len()
    &&& forall|i: int|
        0 <= i < stored.len() ==> blob_nonce((#[trigger] stored[i]).encrypted_cookie) == Some(
            nonces[i],
        )
}

/// The nonces of a list, each as its bytes.
pub open spec fn nonce_views(nonces: Seq<[u8; 12]>) -> Seq<Seq<u8>> {
    Seq::new(nonces.len(), |i: int| nonces[i]@)
}

/// A record that opens to a list of accounts loads as that list: what was
/// saved comes back equal in every field, the token included.
pub proof fn lemma_saved_accounts_load(
    record: VaultDataView,
    file: VaultFileView,
    key: Seq<u8>,
    accounts: Seq<ProfileView>,
)
    requires
        replaces_accounts(record, file, key, accounts),
    ensures
        loaded(VaultFileView::Record(record), key) == Ok::<Seq<ProfileView>, VaultError>(accounts),
{
}

/// A record whose verification blob the key of a password opens is unlocked
/// by that password.
pub proof fn lemma_created_vault_unlocks(
    record: VaultDataView,
    password: Seq<char>,
    machine_id: Seq<char>,
)
    requires
        verifies(record.verification, derived_key(password, machine_id)),
    ensures
        unlock_outcome(VaultFileView::Record(record), password, machine_id) == Ok::<
            bool,
            VaultError,
        >(true),
{
}

/// Saving keeps the verification blob, so the password that unlocked the
/// file unlocks what was saved over it.
pub proof fn lemma_save_keeps_password(
    record: VaultDataView,
    file: VaultFileView,
    key: Seq<u8>,
    accounts: Seq<ProfileView>,
    password: Seq<char>,
    machine_id: Seq<char>,
)
    requires
        replaces_accounts(record, file, key, accounts),
    ensures
        unlock_outcome(VaultFileView::Record(record), password, machine_id) == unlock_outcome(
            file,
            password,
            machine_id,
        ),
{
}

/// Once an account of a user is stored, adding another account of the same
/// user fails as a duplicate, and the stored accounts stay as they are.
pub proof fn lemma_second_account_is_duplicate(
    record: VaultDataView,
    file: VaultFileView,
    key: Seq<u8>,
    first: ProfileView,
    second: ProfileView,
)
    requires
        add_plan(file, Some(key), first) is Ok,
        replaces_accounts(record, file, key, add_plan(file, Some(key), first)->Ok_0),
        first.user_id == second.user_id,
    ensures
        add_plan(VaultFileView::Record(record), Some(key), second) == Err::<
            Seq<ProfileView>,
            VaultError,
        >(VaultError::DuplicateAccount),
{
    let stored = add_plan(file, Some(key), first)->Ok_0;
    assert(stored[stored.len() - 1] == first);
    assert(has_user(stored, second.user_id));
}

/// Two saves whose nonces differ account by account store every token as
/// two different texts, whatever the tokens are.
pub proof fn lemma_fresh_nonces_fresh_tokens(
    first: Seq<EncryptedAccountView>,
    first_nonces: Seq<Seq<u8>>,
    second: Seq<EncryptedAccountView>,
    second_nonces: Seq<Seq<u8>>,
)
    requires
        sealed_under(first, first_nonces),
        sealed_under(second, second_nonces),
        first.len() == second.len(),
        forall|i: int| 0 <= i < first.len() ==> first_nonces[i] != second_nonces[i],
    ensures
        forall|i: int|
            0 <= i < first.len() ==> (#[trigger] first[i]).encrypted_cookie
                != second[i].encrypted_cookie,
{
    assert forall|i: int| 0 <= i < first.len() implies (#[trigger] first[i]).encrypted_cookie
        != second[i].encrypted_cookie by {
        assert(blob_nonce(first[i].encrypted_cookie) == Some(first_nonces[i]));
        assert(blob_nonce(second[i].encrypted_cookie) == Some(second_nonces[i]));
    }
}

/// The verification text is fourteen ASCII characters, so it can be sealed.
proof fn lemma_verification_text_sealable()
    ensures
        sealable(verification_text()),
{
    reveal_strlit("ROKIO_VAULT_V1");
    assert(is_ascii_chars(verification_text()));
    is_ascii_chars_encode_utf8(verification_text());
}

/// Makes a new, empty vault for `password` on the machine `machine_id`,
/// sealing the verification text with the given nonce, and unlocks the
/// session with the new key.
pub fn create_vault_with_nonce(
    password: &str,
    machine_id: &str,
    nonce: &[u8; 12],
    state: &mut CryptoState,
) -> (record: VaultData)
    ensures
        record@.version == VAULT_VERSION,
        record@.accounts.len() == 0,
        record@.verification == sealed_blob(
            verification_text(),
            derived_key(password@, machine_id@),
            nonce@,
        ),
        verifies(record@.verification, derived_key(password@, machine_id@)),
        final(state).session_key() == Some(derived_key(password@, machine_id@)),
{
    let key: [u8; 32] = derive_key(password, machine_id);
    proof {
        lemma_verification_text_sealable();
    }
    let verification: String = match encrypt_with_nonce("ROKIO_VAULT_V1", &key, nonce) {
        Ok(blob) => blob,
        Err(_) => unreached(),
    };
    state.key = Some(key);
    let record = VaultData { version: VAULT_VERSION, verification, accounts: Vec::new() };
    proof {
        assert(record@.accounts =~= Seq::<EncryptedAccountView>::empty());
    }
    record
}

/// Makes a new, empty vault for `password` on the machine `machine_id` and
/// unlocks the session with the new key. The record unlocks with the same
/// password on the same machine.
pub fn create_vault(password: &str, machine_id: &str, state: &mut CryptoState) -> (record:
    VaultData)
    ensures
        record@.version == VAULT_VERSION,
        record@.accounts.len() == 0,
        exists|nonce: Seq<u8>|
            nonce.len() == NONCE_LEN && record@.verification == sealed_blob(
                verification_text(),
                derived_key(password@, machine_id@),
                nonce,
            ),
        verifies(record@.verification, derived_key(password@, machine_id@)),
        final(state).session_key() == Some(derived_key(password@, machine_id@)),
{
    let nonce: [u8; 12] = random_nonce();
    create_vault_with_nonce(password, machine_id, &nonce, state)
}

/// Tries `password` on the vault. A vault that is missing or broken is a
/// failure; a wrong password is the answer `false`. The session is unlocked
/// with the key of the password on `true` and left as it was otherwise.
pub fn unlock_vault(file: &VaultFile, password: &str, machine_id: &str, state: &mut CryptoState) -> (r:
    Result<bool, VaultError>)
    ensures
        r == unlock_outcome(file@, password@, machine_id@),
        r == Ok::<bool, VaultError>(true) ==> final(state).session_key() == Some(
            derived_key(password@, machine_id@),
        ),
        r != Ok::<bool, VaultError>(true) ==> final(state).key == old(state).key,
{
    let record: &VaultData = match file {
        VaultFile::Missing => {
            return Err(VaultError::NotFound);
        },
        VaultFile::Unreadable => {
            return Err(VaultError::Io);
        },
        VaultFile::Malformed => {
            return Err(VaultError::Parse);
        },
        VaultFile::Record(record) => record,
    };
    let key: [u8; 32] = derive_key(password, machine_id);
    match decrypt_string(record.verification.as_str(), &key) {
        Ok(text) => {
            if str_eq(text.as_str(), "ROKIO_VAULT_V1") {
                state.key = Some(key);
                Ok(true)
            } else {
                Ok(false)
            }
        },
        Err(_) => Ok(false),
    }
}

/// Locks the session: the key is dropped. Locking a locked session changes
/// nothing.
pub fn lock_vault(state: &mut CryptoState)
    ensures
        final(state).key is None,
{
    state.key = None;
}

/// Whether a vault file exists and whether the session is unlocked.
pub fn get_vault_status(exists: bool, state: &CryptoState) -> (status: VaultStatus)
    ensures
        status.exists == exists,
        status.unlocked == state.key is Some,
{
    VaultStatus { exists, unlocked: state.is_unlocked() }
}

/// Opens one stored account.
fn open_account(stored: &EncryptedAccount, key: &[u8; 32]) -> (r: Result<Profile, VaultError>)
    ensures
        match r {
            Ok(account) => opened_account(stored@, key@) == Ok::<ProfileView, VaultError>(
                account@,
            ),
            Err(e) => opened_account(stored@, key@) == Err::<ProfileView, VaultError>(e),
        },
{
    match decrypt_string(stored.encrypted_cookie.as_str(), key) {
        Err(e) => Err(e),
        Ok(cookie) => Ok(
            Profile {
                id: stored.id.clone(),
                cookie,
                user_id: stored.user_id,
                username: stored.username.clone(),
                display_name: stored.display_name.clone(),
                thumbnail: copy_text(&stored.thumbnail),
                alias: stored.alias.clone(),
                description: stored.description.clone(),
                is_favorite: stored.is_favorite,
                last_played_at: stored.last_played_at,
                created_at: stored.created_at,
            },
        ),
    }
}

/// Opens every stored account, or fails with the first that does not open.
fn open_accounts(stored: &Vec<EncryptedAccount>, key: &[u8; 32]) -> (r: Result<
    Vec<Profile>,
    VaultError,
>)
    ensures
        match r {
            Ok(accounts) => opened_accounts(stored_views(stored@), key@) == Ok::<
                Seq<ProfileView>,
                VaultError,
            >(views(accounts@)),
            Err(e) => opened_accounts(stored_views(stored@), key@) == Err::<
                Seq<ProfileView>,
                VaultError,
            >(e),
        },
{
    let ghost all = stored_views(stored@);
    let mut accounts: Vec<Profile> = Vec::new();
    let mut i: usize = 0;
    proof {
        assert(all.take(0) =~= Seq::<EncryptedAccountView>::empty());
        assert(views(accounts@) =~= Seq::<ProfileView>::empty());
    }
    while i < stored.len()
        invariant
            i <= stored@.len(),
            all == stored_views(stored@),
            opened_accounts(all.take(i as int), key@) == Ok::<Seq<ProfileView>, VaultError>(
                views(accounts@),
            ),
        decreases stored@.len() - i,
    {
        proof {
            assert(all.take(i + 1).drop_last() =~= all.take(i as int));
            assert(all.take(i + 1).last() == all[i as int]);
        }
        match open_account(&stored[i], key) {
            Err(e) => {
                proof {
                    lemma_opening_fails_for_good(all, key@, i + 1);
                }
                return Err(e);
            },
            Ok(account) => {
                let ghost before = views(accounts@);
                accounts.push(account);
                proof {
                    assert(views(accounts@) =~= before.push(account@));
                }
            },
        }
        i = i + 1;
    }
    proof {
        assert(all.take(all.len() as int) =~= all);
    }
    Ok(accounts)
}

/// A failure among the first `k` stored accounts is the failure of the
/// whole list.
proof fn lemma_opening_fails_for_good(stored: Seq<EncryptedAccountView>, key: Seq<u8>, k: int)
    requires
        0 <= k <= stored.len(),
        opened_accounts(stored.take(k), key) is Err,
    ensures
        opened_accounts(stored, key) == opened_accounts(stored.take(k), key),
    decreases stored.len() - k,
{
    if k < stored.len() {
        assert(stored.take(k + 1).drop_last() =~= stored.take(k));
        lemma_opening_fails_for_good(stored, key, k + 1);
    } else {
        assert(stored.take(k) =~= stored);
    }
}

/// Opens those stored accounts that open, and passes over the others.
fn open_what_opens(stored: &Vec<EncryptedAccount>, key: &[u8; 32]) -> (accounts: Vec<Profile>)
    ensures
        views(accounts@) == openable_accounts(stored_views(stored@), key@),
{
    let ghost all = stored_views(stored@);
    let mut accounts: Vec<Profile> = Vec::new();
    let mut i: usize = 0;
    proof {
        assert(all.take(0) =~= Seq::<EncryptedAccountView>::empty());
        assert(views(accounts@) =~= Seq::<ProfileView>::empty());
    }
    while i < stored.len()
        invariant
            i <= stored@.len(),
            all == stored_views(stored@),
            views(accounts@) == openable_accounts(all.take(i as int), key@),
        decreases stored@.len() - i,
    {
        proof {
            assert(all.take(i + 1).drop_last() =~= all.take(i as int));
            assert(all.take(i + 1).last() == all[i as int]);
        }
        match open_account(&stored[i], key) {
            Err(_) => {},
            Ok(account) => {
                let ghost before = views(accounts@);
                accounts.push(account);
                proof {
                    assert(views(accounts@) =~= before.push(account@));
                }
            },
        }
        i = i + 1;
    }
    proof {
        assert(all.take(all.len() as int) =~= all);
    }
    accounts
}

/// Loads the accounts of the vault, tokens opened with `key`. One account
/// that does not open fails the whole load.
pub fn load_accounts(file: &VaultFile, key: &[u8; 32]) -> (r: Result<Vec<Profile>, VaultError>)
    ensures
        match r {
            Ok(accounts) => loaded(file@, key@) == Ok::<Seq<ProfileView>, VaultError>(
                views(accounts@),
            ),
            Err(e) => loaded(file@, key@) == Err::<Seq<ProfileView>, VaultError>(e),
        },
{
    match file {
        VaultFile::Missing => {
            let accounts: Vec<Profile> = Vec::new();
            proof {
                assert(views(accounts@) =~= Seq::<ProfileView>::empty());
            }
            Ok(accounts)
        },
        VaultFile::Unreadable => Err(VaultError::Io),
        VaultFile::Malformed => Err(VaultError::Parse),
        VaultFile::Record(record) => open_accounts(&record.accounts, key),
    }
}

/// Seals one account with the given nonce.
fn seal_account(account: &Profile, key: &[u8; 32], nonce: &[u8; 12]) -> (r: Result<
    EncryptedAccount,
    VaultError,
>)
    ensures
        r is Ok <==> sealable(account@.cookie),
        r is Err ==> r == Err::<EncryptedAccount, VaultError>(VaultError::Encryption),
        r matches Ok(stored) ==> {
            &&& stored@ == sealed_account(account@, key@, nonce@)
            &&& blob_nonce(stored@.encrypted_cookie) == Some(nonce@)
            &&& opened_account(stored@, key@) == Ok::<ProfileView, VaultError>(account@)
        },
{
    match encrypt_with_nonce(account.cookie.as_str(), key, nonce) {
        Err(e) => Err(e),
        Ok(encrypted_cookie) => Ok(
            EncryptedAccount {
                id: account.id.clone(),
                encrypted_cookie,
                user_id: account.user_id,
                username: account.username.clone(),
                display_name: account.display_name.clone(),
                thumbnail: copy_text(&account.thumbnail),
                alias: account.alias.clone(),
                description: account.description.clone(),
                is_favorite: account.is_favorite,
                last_played_at: account.last_played_at,
                created_at: account.created_at,
            },
        ),
    }
}

/// Seals every account, account `i` with nonce `i`.
fn seal_accounts(accounts: &[Profile], key: &[u8; 32], nonces: &[[u8; 12]]) -> (r: Result<
    Vec<EncryptedAccount>,
    VaultError,
>)
    requires
        nonces@.len() == accounts@.len(),
    ensures
        r is Ok <==> all_sealable(views(accounts@)),
        r is Err ==> r == Err::<Vec<EncryptedAccount>, VaultError>(VaultError::Encryption),
        r matches Ok(stored) ==> {
            &&& stored_views(stored@) == sealed_accounts(
                views(accounts@),
                key@,
                nonce_views(nonces@),
            )
            &&& sealed_under(stored_views(stored@), nonce_views(nonces@))
            &&& opened_accounts(stored_views(stored@), key@) == Ok::<
                Seq<ProfileView>,
                VaultError,
            >(views(accounts@))
        },
{
    let ghost all = views(accounts@);
    let mut stored: Vec<EncryptedAccount> = Vec::new();
    let mut i: usize = 0;
    proof {
        assert(all.take(0) =~= Seq::<ProfileView>::empty());
        assert(stored_views(stored@) =~= Seq::<EncryptedAccountView>::empty());
    }
    while i < accounts.len()
        invariant
            i <= accounts@.len(),
            nonces@.len() == accounts@.len(),
            all == views(accounts@),
            stored@.len() == i,
            all_sealable(all.take(i as int)),
            forall|j: int|
                0 <= j < i ==> (#[trigger] stored_views(stored@)[j]) == sealed_account(
                    all[j],
                    key@,
                    nonces@[j]@,
                ),
            forall|j: int|
                0 <= j < i ==> blob_nonce((#[trigger] stored_views(stored@)[j]).encrypted_cookie)
                    == Some(nonces@[j]@),
            opened_accounts(stored_views(stored@), key@) == Ok::<Seq<ProfileView>, VaultError>(
                all.take(i as int),
            ),
        decreases accounts@.len() - i,
    {
        match seal_account(&accounts[i], key, &nonces[i]) {
            Err(e) => {
                proof {
                    assert(!sealable(all[i as int].cookie));
                }
                return Err(e);
            },
            Ok(sealed) => {
                let ghost before = stored_views(stored@);
                stored.push(sealed);
                proof {
                    let after = stored_views(stored@);
                    assert(after =~= before.push(sealed@));
                    assert(after.drop_last() =~= before);
                    assert(all.take(i + 1) =~= all.take(i as int).push(all[i as int]));
                    assert forall|j: int| 0 <= j < i + 1 implies sealable(
                        (#[trigger] all.take(i + 1)[j]).cookie,
                    ) by {
                        if j < i {
                            assert(all.take(i as int)[j] == all.take(i + 1)[j]);
                        }
                    }
                }
            },
        }
        i = i + 1;
    }
    proof {
        assert(all.take(all.len() as int) =~= all);
        assert(stored_views(stored@) =~= sealed_accounts(all, key@, nonce_views(nonces@)));
        assert forall|j: int| 0 <= j < stored_views(stored@).len() implies blob_nonce(
            (#[trigger] stored_views(stored@)[j]).encrypted_cookie,
        ) == Some(nonce_views(nonces@)[j]) by {
            assert(nonce_views(nonces@)[j] == nonces@[j]@);
        }
    }
    Ok(stored)
}

/// As many fresh random nonces as asked for.
fn fresh_nonces(count: usize) -> (nonces: Vec<[u8; 12]>)
    ensures
        nonces@.len() == count,
{
    let mut nonces: Vec<[u8; 12]> = Vec::new();
    let mut i: usize = 0;
    while i < count
        invariant
            i <= count,
            nonces@.len() == i,
        decreases count - i,
    {
        nonces.push(random_nonce());
        i = i + 1;
    }
    nonces
}

/// The record to write when `accounts` replace the accounts of the vault,
/// account `i` sealed with nonce `i`. Version and verification blob are
/// those of the file.
pub fn save_accounts_with_nonces(
    file: &VaultFile,
    key: &[u8; 32],
    accounts: &[Profile],
    nonces: &[[u8; 12]],
) -> (r: Result<VaultData, VaultError>)
    requires
        nonces@.len() == accounts@.len(),
    ensures
        match r {
            Ok(record) => saved(file@, key@, views(accounts@), nonce_views(nonces@)) == Ok::<
                VaultDataView,
                VaultError,
            >(record@),
            Err(e) => saved(file@, key@, views(accounts@), nonce_views(nonces@)) == Err::<
                VaultDataView,
                VaultError,
            >(e),
        },
        r matches Ok(record) ==> sealed_under(record@.accounts, nonce_views(nonces@)),
        carries_out(
            r,
            file@,
            Some(key@),
            committed(file@, Ok::<Seq<ProfileView>, VaultError>(views(accounts@))),
        ),
{
    let current: &VaultData = match file {
        VaultFile::Missing => {
            return Err(VaultError::NotFound);
        },
        VaultFile::Unreadable => {
            return Err(VaultError::Io);
        },
        VaultFile::Malformed => {
            return Err(VaultError::Parse);
        },
        VaultFile::Record(record) => record,
    };
    match seal_accounts(accounts, key, nonces) {
        Err(e) => Err(e),
        Ok(stored) => Ok(
            VaultData {
                version: current.version,
                verification: current.verification.clone(),
                accounts: stored,
            },
        ),
    }
}

/// The record to write when `accounts` replace the accounts of the vault.
/// Every token is sealed anew under a fresh nonce; version and verification
/// blob are those of the file. Loading the record gives `accounts` back.
pub fn save_accounts(file: &VaultFile, key: &[u8; 32], accounts: &[Profile]) -> (r: Result<
    VaultData,
    VaultError,
>)
    ensures
        carries_out(
            r,
            file@,
            Some(key@),
            committed(file@, Ok::<Seq<ProfileView>, VaultError>(views(accounts@))),
        ),
        r matches Ok(record) ==> exists|nonces: Seq<Seq<u8>>|
            nonces.len() == accounts@.len() && saved(file@, key@, views(accounts@), nonces) == Ok::<
                VaultDataView,
                VaultError,
            >(record@) && sealed_under(record@.accounts, nonces),
{
    let nonces: Vec<[u8; 12]> = fresh_nonces(accounts.len());
    let r = save_accounts_with_nonces(file, key, accounts, nonces.as_slice());
    proof {
        assert(nonce_views(nonces@).len() == accounts@.len());
    }
    r
}

/// The accounts of the vault, if the session is unlocked.
pub fn get_accounts(file: &VaultFile, state: &CryptoState) -> (r: Result<Vec<Profile>, VaultError>)
    ensures
        match r {
            Ok(accounts) => session_accounts(file@, state.session_key()) == Ok::<
                Seq<ProfileView>,
                VaultError,
            >(views(accounts@)),
            Err(e) => session_accounts(file@, state.session_key()) == Err::<
                Seq<ProfileView>,
                VaultError,
            >(e),
        },
{
    match &state.key {
        None => Err(VaultError::Locked),
        Some(key) => load_accounts(file, key),
    }
}

/// Adds `profile` to the vault, unless an account of its user is stored.
pub fn add_profile(file: &VaultFile, state: &CryptoState, profile: Profile) -> (r: Result<
    VaultData,
    VaultError,
>)
    ensures
        carries_out(
            r,
            file@,
            state.session_key(),
            add_plan(file@, state.session_key(), profile@),
        ),
{
    let key: &[u8; 32] = match &state.key {
        None => {
            return Err(VaultError::Locked);
        },
        Some(key) => key,
    };
    let accounts: Vec<Profile> = match load_accounts(file, key) {
        Err(e) => {
            return Err(e);
        },
        Ok(accounts) => accounts,
    };
    let list: Vec<Profile> = match with_account(accounts, profile) {
        Err(e) => {
            return Err(e);
        },
        Ok(list) => list,
    };
    save_accounts(file, key, list.as_slice())
}

/// Adds the account of a token that the service accepted as belonging to
/// `user`: it gets a fresh identifier and the current time as its time of
/// creation. An account of the same user must not be stored yet.
pub fn add_account(file: &VaultFile, state: &CryptoState, cookie: String, user: RobloxUserData) -> (r:
    Result<(Profile, VaultData), VaultError>)
    ensures
        match r {
            Ok((profile, record)) => {
                &&& profile@ == new_profile(profile@.id, cookie@, user@, profile@.created_at)
                &&& carries_out(
                    Ok::<VaultData, VaultError>(record),
                    file@,
                    state.session_key(),
                    add_plan(file@, state.session_key(), profile@),
                )
            },
            Err(e) => exists|profile: ProfileView|
                profile == new_profile(profile.id, cookie@, user@, profile.created_at)
                    && #[trigger] add_plan(file@, state.session_key(), profile) == Err::<
                    Seq<ProfileView>,
                    VaultError,
                >(e),
        },
{
    let id: String = new_uuid_v4();
    let now: i64 = utc_timestamp_now();
    let created_at: u64 = if now >= 0 { now as u64 } else { 0 };
    let profile: Profile = make_profile(id, cookie, user, created_at);
    let copy: Profile = profile.duplicate();
    match add_profile(file, state, copy) {
        Ok(record) => Ok((profile, record)),
        Err(e) => Err(e),
    }
}

/// Edits the stored account that has the identifier of `change`: alias,
/// note, favorite mark and time of last play are taken from `change`.
pub fn update_account(file: &VaultFile, state: &CryptoState, change: &Profile) -> (r: Result<
    VaultData,
    VaultError,
>)
    ensures
        carries_out(
            r,
            file@,
            state.session_key(),
            update_plan(file@, state.session_key(), change@),
        ),
{
    let key: &[u8; 32] = match &state.key {
        None => {
            return Err(VaultError::Locked);
        },
        Some(key) => key,
    };
    let accounts: Vec<Profile> = match load_accounts(file, key) {
        Err(e) => {
            return Err(e);
        },
        Ok(accounts) => accounts,
    };
    let list: Vec<Profile> = match with_changes(accounts, change) {
        Err(e) => {
            return Err(e);
        },
        Ok(list) => list,
    };
    save_accounts(file, key, list.as_slice())
}

/// Removes the stored account with the identifier `id`.
pub fn delete_account(file: &VaultFile, state: &CryptoState, id: &str) -> (r: Result<
    VaultData,
    VaultError,
>)
    ensures
        carries_out(
            r,
            file@,
            state.session_key(),
            delete_plan(file@, state.session_key(), id@),
        ),
{
    let key: &[u8; 32] = match &state.key {
        None => {
            return Err(VaultError::Locked);
        },
        Some(key) => key,
    };
    let accounts: Vec<Profile> = match load_accounts(file, key) {
        Err(e) => {
            return Err(e);
        },
        Ok(accounts) => accounts,
    };
    let list: Vec<Profile> = match without_account(accounts, id) {
        Err(e) => {
            return Err(e);
        },
        Ok(list) => list,
    };
    save_accounts(file, key, list.as_slice())
}

/// Removes every stored account.
pub fn clear_accounts(file: &VaultFile, state: &CryptoState) -> (r: Result<VaultData, VaultError>)
    ensures
        carries_out(
            r,
            file@,
            state.session_key(),
            clear_plan(file@, state.session_key()),
        ),
{
    let key: &[u8; 32] = match &state.key {
        None => {
            return Err(VaultError::Locked);
        },
        Some(key) => key,
    };
    let none: Vec<Profile> = Vec::new();
    proof {
        assert(views(none@) =~= Seq::<ProfileView>::empty());
    }
    save_accounts(file, key, none.as_slice())
}

/// Brings the accounts of a backup into the vault. `backup` is the record
/// that the backup text holds, or `None` if it holds none. Accounts of the
/// backup that do not open under the key of the session are passed over.
/// With `merge` the others are added to the stored accounts, except those
/// whose user is stored already; without it they replace the stored
/// accounts. The number returned counts the accounts that opened.
pub fn import_accounts(
    file: &VaultFile,
    state: &CryptoState,
    backup: &Option<VaultData>,
    merge: bool,
) -> (r: Result<(usize, VaultData), VaultError>)
    ensures
        match r {
            Ok((count, record)) => {
                &&& state.key is Some
                &&& count == imported_accounts(
                    backup_view(*backup),
                    state.session_key()->0,
                ).len()
                &&& carries_out(
                    Ok::<VaultData, VaultError>(record),
                    file@,
                    state.session_key(),
                    import_plan(file@, state.session_key(), backup_view(*backup), merge),
                )
            },
            Err(e) => import_plan(file@, state.session_key(), backup_view(*backup), merge) == Err::<
                Seq<ProfileView>,
                VaultError,
            >(e),
        },
{
    let key: &[u8; 32] = match &state.key {
        None => {
            return Err(VaultError::Locked);
        },
        Some(key) => key,
    };
    let record: &VaultData = match backup {
        None => {
            return Err(VaultError::Parse);
        },
        Some(record) => record,
    };
    let imported: Vec<Profile> = open_what_opens(&record.accounts, key);
    let count: usize = imported.len();
    let list: Vec<Profile> = if merge {
        let existing: Vec<Profile> = match load_accounts(file, key) {
            Ok(accounts) => accounts,
            Err(_) => {
                let none: Vec<Profile> = Vec::new();
                proof {
                    assert(views(none@) =~= Seq::<ProfileView>::empty());
                }
                none
            },
        };
        merge_accounts(existing, &imported)
    } else {
        imported
    };
    match save_accounts(file, key, list.as_slice()) {
        Ok(saved_record) => Ok((count, saved_record)),
        Err(e) => Err(e),
    }
}

/// The record of a backup, as mathematics sees it.
pub open spec fn backup_view(backup: Option<VaultData>) -> Option<VaultDataView> {
    match backup {
        Some(record) => Some(record@),
        None => None,
    }
}

/// The text of a backup: the content of the vault file as it is, or `{}`
/// where there is no file. A locked session gets none.
pub fn export_accounts(content: Option<String>, state: &CryptoState) -> (r: Result<
    String,
    VaultError,
>)
    ensures
        match r {
            Ok(text) => state.key is Some && text@ == match content {
                Some(c) => c@,
                None => "{}"@,
            },
            Err(e) => state.key is None && e == VaultError::Locked,
        },
{
    if !state.is_unlocked() {
        return Err(VaultError::Locked);
    }
    match content {
        Some(text) => Ok(text),
        None => Ok("{}".to_owned()),
    }
}

} // verus!
