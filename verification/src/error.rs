//! The error type shared by every fallible operation of the vault.

use vstd::prelude::*;
use vstd::string::*;

verus! {

/// Why an operation failed.
///
/// A wrong password and a damaged verification record are both reported as
/// `InvalidPassword`, so that a caller cannot tell the two apart.
#[derive(Debug)]
pub enum Error {
    /// The operation needs the key, and the vault holds none.
    VaultLocked,
    /// No vault has been initialised at the path.
    VaultNotFound { path: String },
    /// No secret is stored under the path.
    SecretNotFound { path: String },
    /// The master password does not open the vault.
    InvalidPassword,
    /// A policy above the vault refused the access.
    AccessDenied { reason: String },
    /// Nobody approved the access in time.
    ApprovalTimeout,
    /// Key derivation or sealing failed.
    Encryption(String),
    /// A sealed payload is malformed or fails authentication.
    Decryption(String),
    /// The persistent store failed.
    Database(String),
    /// Reading or writing a file failed.
    Io(String),
    /// A stored document is not valid JSON.
    Json(String),
    /// Anything else, in words.
    Other(String),
}

impl Error {
    /// The text of the message, as a sequence of characters.
    pub open spec fn message_text(self) -> Seq<char> {
        match self {
            Error::VaultLocked => "Vault is locked"@,
            Error::VaultNotFound { path } => "Vault not found at "@ + path@,
            Error::SecretNotFound { path } => "Secret not found: "@ + path@,
            Error::InvalidPassword => "Invalid master password"@,
            Error::AccessDenied { reason } => "Access denied: "@ + reason@,
            Error::ApprovalTimeout => "Approval timeout"@,
            Error::Encryption(detail) => "Encryption error: "@ + detail@,
            Error::Decryption(detail) => "Decryption error: "@ + detail@,
            Error::Database(detail) => "Database error: "@ + detail@,
            Error::Io(detail) => "IO error: "@ + detail@,
            Error::Json(detail) => "JSON error: "@ + detail@,
            Error::Other(detail) => detail@,
        }
    }

    /// The message shown to a user. It names the path or the operation and
    /// never a secret value.
    pub fn message(&self) -> (text: String)
        ensures
            text@ == self.message_text(),
    {
        match self {
            Error::VaultLocked => String::from_str("Vault is locked"),
            Error::VaultNotFound { path } => String::from_str("Vault not found at ").concat(
                path.as_str(),
            ),
            Error::SecretNotFound { path } => String::from_str("Secret not found: ").concat(
                path.as_str(),
            ),
            Error::InvalidPassword => String::from_str("Invalid master password"),
            Error::AccessDenied { reason } => String::from_str("Access denied: ").concat(
                reason.as_str(),
            ),
            Error::ApprovalTimeout => String::from_str("Approval timeout"),
            Error::Encryption(detail) => String::from_str("Encryption error: ").concat(
                detail.as_str(),
            ),
            Error::Decryption(detail) => String::from_str("Decryption error: ").concat(
                detail.as_str(),
            ),
            Error::Database(detail) => String::from_str("Database error: ").concat(
                detail.as_str(),
            ),
            Error::Io(detail) => String::from_str("IO error: ").concat(detail.as_str()),
            Error::Json(detail) => String::from_str("JSON error: ").concat(detail.as_str()),
            Error::Other(detail) => detail.clone(),
        }
    }
}

} // verus!
