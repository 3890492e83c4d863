//! Error taxonomy shared by the whole crate.
//!
//! Every failure a caller can observe is one of these variants, so the API
//! layer can map each to a stable status class without losing information.

use vstd::prelude::*;

verus! {

/// A required field of a host configuration, used to report which one is
/// missing.
#[derive(Clone, Copy, Debug, PartialEq, Eq, Structural)]
pub enum ConfigField {
    Path,
    Url,
    Host,
    Username,
    PasswordEncrypted,
}

impl ConfigField {
    /// The field's name as it appears in a host configuration.
    pub fn name(&self) -> (r: &'static str)
        ensures
            *self == ConfigField::Path ==> r@ == "path"@,
            *self == ConfigField::Url ==> r@ == "url"@,
            *self == ConfigField::Host ==> r@ == "host"@,
            *self == ConfigField::Username ==> r@ == "username"@,
            *self == ConfigField::PasswordEncrypted ==> r@ == "password_encrypted"@,
    {
        match self {
            ConfigField::Path => "path",
            ConfigField::Url => "url",
            ConfigField::Host => "host",
            ConfigField::Username => "username",
            ConfigField::PasswordEncrypted => "password_encrypted",
        }
    }
}

/// Errors of the credential vault.
#[derive(Clone, Copy, Debug, PartialEq, Eq, Structural)]
pub enum VaultError {
    /// The key material could not be turned into an encryption key.
    KeyInit,
    /// Sealing failed (drawing the nonce or the encryption itself).
    Encrypt,
    /// The token was malformed or its authentication tag did not match.
    Decrypt,
    /// The recovered plaintext was not valid UTF-8.
    Encoding,
}

/// The error taxonomy of the file-operation core.
#[derive(Clone, Copy, Debug, PartialEq, Eq, Structural)]
pub enum FmError {
    /// Malformed or missing input.
    Validation,
    /// The host or path does not exist.
    NotFound,
    /// The caller does not own the host.
    Authorization,
    /// A stored credential could not be decrypted.
    Credential,
    /// The resolved path would escape the host's root.
    PathTraversal,
    /// The configured root is not an absolute, dot-free path.
    InvalidRoot,
    /// The remote backend could not be reached or refused the session.
    BackendUnavailable,
    /// The host's type does not support the requested operation.
    Unsupported,
    /// A field the host's type requires is absent.
    Misconfigured(ConfigField),
}

impl FmError {
    /// A short description, for logs and API responses.
    pub fn message(&self) -> &'static str {
        match self {
            FmError::Validation => "invalid request",
            FmError::NotFound => "not found",
            FmError::Authorization => "access denied",
            FmError::Credential => "credential decryption failed",
            FmError::PathTraversal => "path traversal attempt detected",
            FmError::InvalidRoot => "invalid base path",
            FmError::BackendUnavailable => "backend unavailable",
            FmError::Unsupported => "operation not supported for this host type",
            FmError::Misconfigured(_) => "host configuration is missing a required field",
        }
    }
}

} // verus!
