//! The failures that the vault and the cipher report.

use vstd::prelude::*;

verus! {

/// Why an operation on the vault or on a ciphertext failed.
#[derive(Debug, Clone, Copy, PartialEq, Eq, Structural)]
pub enum VaultError {
    /// The cipher refused the plaintext: it is longer than one message may be.
    Encryption,
    /// A blob is not base64, or the text under it is not UTF-8.
    Decode,
    /// The key is wrong or the ciphertext was altered; the two cannot be
    /// told apart.
    Authentication,
    /// There is no vault file.
    NotFound,
    /// The vault file does not hold a vault record.
    Parse,
    /// The session holds no key.
    Locked,
    /// No account has the given id.
    AccountNotFound,
    /// An account of the same user is already stored.
    DuplicateAccount,
    /// The vault file could not be read.
    Io,
}

/// The sentence that tells the user of a failure.
pub open spec fn message_of(error: VaultError) -> Seq<char> {
    match error {
        VaultError::Encryption => "Encryption error: the text is too long"@,
        VaultError::Decode => "Decode error: not an encrypted text"@,
        VaultError::Authentication => "Decryption failed: invalid key or corrupted data"@,
        VaultError::NotFound => "Vault not found"@,
        VaultError::Parse => "Invalid vault format"@,
        VaultError::Locked => "Vault is locked"@,
        VaultError::AccountNotFound => "Account not found"@,
        VaultError::DuplicateAccount => "Account is already added"@,
        VaultError::Io => "Failed to read the vault"@,
    }
}

impl VaultError {
    /// A sentence for the user.
    pub fn message(&self) -> (text: String)
        ensures
            text@ == message_of(*self),
    {
        let text: &str = match self {
            VaultError::Encryption => "Encryption error: the text is too long",
            VaultError::Decode => "Decode error: not an encrypted text",
            VaultError::Authentication => "Decryption failed: invalid key or corrupted data",
            VaultError::NotFound => "Vault not found",
            VaultError::Parse => "Invalid vault format",
            VaultError::Locked => "Vault is locked",
            VaultError::AccountNotFound => "Account not found",
            VaultError::DuplicateAccount => "Account is already added",
            VaultError::Io => "Failed to read the vault",
        };
        text.to_owned()
    }
}

} // verus!
