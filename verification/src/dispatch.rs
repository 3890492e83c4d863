//! Host dispatcher: validates a host's configuration for a requested
//! operation and produces the fully resolved driver call, with any stored
//! credential decrypted.
//!
//! The dispatcher itself performs no I/O: a rejected operation — an
//! unsupported type, a missing field, a credential that fails to decrypt —
//! is refused before any connection could be attempted. A missing credential
//! never falls back to an empty or default password.

use vstd::prelude::*;
use crate::errors::{ConfigField, FmError};
use crate::guard::{authorize, owns};
use crate::models::{Host, HostConfig, HostType};
use crate::paths::{join_url, url_join};
use crate::vault::{decrypt_spec, Encryptor};

verus! {

/// The uniform file-operation set every backend answers to; a backend that
/// cannot perform one refuses it with `Unsupported` rather than dropping it
/// from the contract.
#[derive(Clone, Copy, Debug, PartialEq, Eq, Structural)]
pub enum Operation {
    List,
    Read,
    Write,
    Delete,
    Mkdir,
}

/// A fully validated driver invocation: which backend to run and every
/// parameter it needs, credentials already decrypted.
#[derive(Debug, Clone, PartialEq, Eq)]
pub enum DriverCall {
    /// Local disk: the configured root and the caller's relative path, to be
    /// resolved by `LocalFileSystem::resolve_path`.
    Local { base: String, rel: String },
    /// HTTP: the joined URL to fetch.
    Http { url: String },
    /// SFTP: connection parameters and the remote path.
    Sftp { host: String, port: u16, username: String, password: String, path: String },
}

/// An SFTP backend; every call opens a fresh session on a dedicated worker,
/// so the blocking handshake never stalls other requests. Its operations
/// live with the I/O layer; the dispatcher below prepares their parameters.
pub struct SftpFileSystem;

/// Which operations each host type supports: local disks everything, HTTP
/// only listing and reading, SFTP everything but delete and mkdir.
pub open spec fn supported(t: HostType, op: Operation) -> bool {
    match t {
        HostType::Local => true,
        HostType::Http => op == Operation::List || op == Operation::Read,
        HostType::Sftp => op == Operation::List || op == Operation::Read || op
            == Operation::Write,
    }
}

/// Decides `supported` executably.
pub fn operation_supported(t: &HostType, op: &Operation) -> (r: bool)
    ensures
        r == supported(*t, *op),
{
    match t {
        HostType::Local => true,
        HostType::Http => match op {
            Operation::List | Operation::Read => true,
            _ => false,
        },
        HostType::Sftp => match op {
            Operation::List | Operation::Read | Operation::Write => true,
            _ => false,
        },
    }
}

/// The first field the host's type requires that its configuration lacks,
/// in the order the dispatcher checks them: `path` for local, `url` for
/// HTTP; `host`, then `username`, then `password_encrypted` for SFTP. The
/// port is optional and defaults instead.
pub open spec fn missing_field(t: HostType, c: HostConfig) -> Option<ConfigField> {
    match t {
        HostType::Local => if c.path is None {
            Some(ConfigField::Path)
        } else {
            None
        },
        HostType::Http => if c.url is None {
            Some(ConfigField::Url)
        } else {
            None
        },
        HostType::Sftp => if c.host is None {
            Some(ConfigField::Host)
        } else if c.username is None {
            Some(ConfigField::Username)
        } else if c.password_encrypted is None {
            Some(ConfigField::PasswordEncrypted)
        } else {
            None
        },
    }
}

/// An SFTP host's port: as configured, or 22.
pub open spec fn port_or_default(c: HostConfig) -> u16 {
    match c.port {
        Some(p) => p,
        None => 22,
    }
}

/// Everything `plan_operation` promises of its result `r`, for a host, an
/// operation, a requested path and the vault key:
/// an unsupported operation is refused; a missing required field is named;
/// otherwise the driver call is pinned down exactly, with the SFTP password
/// the decryption of the stored token — or `Credential` when that fails.
pub open spec fn plan_spec_holds(
    host: Host,
    op: Operation,
    path: Seq<char>,
    key: Seq<u8>,
    r: Result<DriverCall, FmError>,
) -> bool {
    &&& (!supported(host.host_type, op) ==> r == Err::<DriverCall, FmError>(
        FmError::Unsupported,
    ))
    &&& ((supported(host.host_type, op) && missing_field(host.host_type, host.config) is Some)
        ==> r == Err::<DriverCall, FmError>(
        FmError::Misconfigured(missing_field(host.host_type, host.config)->0),
    ))
    &&& (supported(host.host_type, op) && missing_field(host.host_type, host.config) is None
        ==> match host.host_type {
        HostType::Local => r matches Ok(DriverCall::Local { base, rel }) && base@
            == host.config.path->0@ && rel@ == path,
        HostType::Http => r matches Ok(DriverCall::Http { url }) && url@ == url_join(
            host.config.url->0@,
            path,
        ),
        HostType::Sftp => {
            let encpw = host.config.password_encrypted->0@;
            &&& (decrypt_spec(key, encpw) is None ==> r == Err::<DriverCall, FmError>(
                FmError::Credential,
            ))
            &&& (decrypt_spec(key, encpw) matches Some(pw) ==> (r matches Ok(
                DriverCall::Sftp { host: h, port, username, password, path: p },
            ) && h@ == host.config.host->0@ && port == port_or_default(host.config)
                && username@ == host.config.username->0@ && password@ == pw && p@ == path))
        },
    })
}

/// Routes one operation: checks support, checks required configuration —
/// naming the first missing field — decrypts the stored SFTP credential, and
/// returns the driver call with the driver's parameters. Purely a decision:
/// no connection is attempted here, so a misconfigured host fails before any
/// network traffic.
pub fn plan_operation(host: &Host, op: Operation, path: &str, enc: &Encryptor) -> (r: Result<
    DriverCall,
    FmError,
>)
    requires
        enc.wf(),
    ensures
        plan_spec_holds(*host, op, path@, enc.key_view(), r),
{
    if !operation_supported(&host.host_type, &op) {
        return Err(FmError::Unsupported);
    }
    match &host.host_type {
        HostType::Local => match &host.config.path {
            Some(base) => Ok(DriverCall::Local { base: base.clone(), rel: path.to_owned() }),
            None => Err(FmError::Misconfigured(ConfigField::Path)),
        },
        HostType::Http => match &host.config.url {
            Some(u) => Ok(DriverCall::Http { url: join_url(u.as_str(), path) }),
            None => Err(FmError::Misconfigured(ConfigField::Url)),
        },
        HostType::Sftp => {
            let h = match &host.config.host {
                Some(h) => h.clone(),
                None => {
                    return Err(FmError::Misconfigured(ConfigField::Host));
                },
            };
            let username = match &host.config.username {
                Some(u) => u.clone(),
                None => {
                    return Err(FmError::Misconfigured(ConfigField::Username));
                },
            };
            let encpw = match &host.config.password_encrypted {
                Some(p) => p,
                None => {
                    return Err(FmError::Misconfigured(ConfigField::PasswordEncrypted));
                },
            };
            let port = match host.config.port {
                Some(p) => p,
                None => 22,
            };
            let password = match enc.decrypt(encpw.as_str()) {
                Ok(p) => p,
                Err(_) => {
                    return Err(FmError::Credential);
                },
            };
            Ok(
                DriverCall::Sftp {
                    host: h,
                    port,
                    username,
                    password,
                    path: path.to_owned(),
                },
            )
        },
    }
}

/// The guarded entry point: re-validates ownership, then plans the
/// operation. A caller that does not own the host is denied with
/// `Authorization` — whatever the operation — and nothing about the host's
/// configuration is examined or revealed.
pub fn authorize_and_plan(
    caller_id: &str,
    host: &Host,
    op: Operation,
    path: &str,
    enc: &Encryptor,
) -> (r: Result<DriverCall, FmError>)
    requires
        enc.wf(),
    ensures
        !owns(caller_id@, *host) ==> r == Err::<DriverCall, FmError>(FmError::Authorization),
        owns(caller_id@, *host) ==> plan_spec_holds(*host, op, path@, enc.key_view(), r),
{
    match authorize(caller_id, host) {
        Ok(()) => plan_operation(host, op, path, enc),
        Err(_) => Err(FmError::Authorization),
    }
}

} // verus!
